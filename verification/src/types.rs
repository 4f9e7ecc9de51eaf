//! Configuration data shared by every unit of work: the output format
//! and the full option set, read-only after construction.
use vstd::prelude::*;

verus! {

/// Output format options.
#[derive(Debug, Clone, Copy, PartialEq, Eq, Structural)]
pub enum OutputFormat {
    Plain,
    Jsonl,
    Csv,
}

impl Default for OutputFormat {
    fn default() -> (r: Self)
        ensures
            r == OutputFormat::Plain,
    {
        OutputFormat::Plain
    }
}

/// The recognized options and their values, as the command line
/// establishes them. Immutable once built; every unit of work reads the
/// same configuration.
#[derive(Debug, Clone)]
pub struct Cli {
    /// Timeout for each request in seconds.
    pub timeout: u64,
    /// Number of retries for failed requests.
    pub retry: u32,
    /// Delay between retries in milliseconds.
    pub delay: u64,
    /// Maximum number of concurrent requests (0 for unlimited).
    pub concurrency: usize,
    /// Proxy URL for requests, if any.
    pub proxy: Option<String>,
    /// Verify SSL certificates (default false, insecure).
    pub verify_ssl: bool,
    /// Limit on requests per second, if any.
    pub rate_limit: Option<u64>,
    /// Random pre-request delay range in milliseconds, as "MIN:MAX".
    pub random_delay: Option<String>,
    /// Whether to follow HTTP redirects.
    pub follow_redirect: bool,
    /// Use HTTP/2 for requests.
    pub http2: bool,
    /// Custom headers to add to the request, each as "Key: Value".
    pub headers: Vec<String>,
    /// Output file to save results (absent: console).
    pub output: Option<String>,
    /// Output format.
    pub format: OutputFormat,
    /// Custom format string for plain output.
    pub strf: Option<String>,
    /// Include request details in the output.
    pub include_req: bool,
    /// Include response body in the output.
    pub include_res: bool,
    /// Include title from response body in the output.
    pub include_title: bool,
    /// Disable color output.
    pub no_color: bool,
    /// Filter by specific HTTP status codes (empty: no filter).
    pub filter_status: Vec<u16>,
    /// Filter by string in response body.
    pub filter_string: Option<String>,
    /// Filter by regex in response body.
    pub filter_regex: Option<String>,
    /// Run as a tool-invocation server instead of reading stdin.
    pub mcp: bool,
}

impl Default for Cli {
    /// The defaults the command line declares for each option.
    fn default() -> (r: Self)
        ensures
            r.timeout == 10,
            r.retry == 0,
            r.delay == 0,
            r.concurrency == 0,
            r.proxy is None,
            r.verify_ssl == false,
            r.rate_limit is None,
            r.random_delay is None,
            r.follow_redirect == true,
            r.http2 == false,
            r.headers@.len() == 0,
            r.output is None,
            r.format == OutputFormat::Plain,
            r.strf is None,
            r.include_req == false,
            r.include_res == false,
            r.include_title == false,
            r.no_color == false,
            r.filter_status@.len() == 0,
            r.filter_string is None,
            r.filter_regex is None,
            r.mcp == false,
    {
        Cli {
            timeout: 10,
            retry: 0,
            delay: 0,
            concurrency: 0,
            proxy: None,
            verify_ssl: false,
            rate_limit: None,
            random_delay: None,
            follow_redirect: true,
            http2: false,
            headers: Vec::new(),
            output: None,
            format: OutputFormat::Plain,
            strf: None,
            include_req: false,
            include_res: false,
            include_title: false,
            no_color: false,
            filter_status: Vec::new(),
            filter_string: None,
            filter_regex: None,
            mcp: false,
        }
    }
}

} // verus!
