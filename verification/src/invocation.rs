//! Invocation builder: maps the configuration, the resolved filename and
//! the URL to the ordered argument vector of the external downloader. The
//! fixed tokens encode the reliability and throughput policy this wrapper
//! imposes on every download; the configuration-driven tokens follow, and
//! the URL is always the final token.

use vstd::prelude::*;

use crate::text::{dec_rep, has_prefix, u64_to_string};

verus! {

/// The validated configuration record, produced by the command-line layer.
pub struct Cli {
    pub destination: Option<String>,
    pub max_speed: Option<String>,
    pub timeout: u64,
    pub connect_timeout: u64,
    pub max_tries: u32,
    pub retry_wait: u64,
    pub user_agent: Option<String>,
    pub parallel_downloads: usize,
    pub quiet: bool,
    pub urls: Vec<String>,
}

/// The tokens present in every invocation, in order: directory and output
/// name first, then the fixed policy flags interleaved with the four
/// numeric configuration flags.
pub open spec fn fixed_tokens(dir: Seq<char>, name: Seq<char>, c: Cli) -> Seq<Seq<char>> {
    seq![
        "--dir="@ + dir,
        "--out="@ + name,
        "--continue=true"@,
        "--max-connection-per-server=16"@,
        "--split=32"@,
        "--min-split-size=1M"@,
        "--file-allocation=falloc"@,
        "--max-tries="@ + dec_rep(c.max_tries as nat),
        "--retry-wait="@ + dec_rep(c.retry_wait as nat),
        "--connect-timeout="@ + dec_rep(c.connect_timeout as nat),
        "--timeout="@ + dec_rep(c.timeout as nat),
        "--max-file-not-found=3"@,
        "--summary-interval=1"@,
        "--console-log-level=warn"@,
        "--auto-file-renaming=false"@,
        "--allow-overwrite=true"@,
        "--conditional-get=true"@,
        "--check-integrity=true"@,
        "--disk-cache=128M"@,
        "--async-dns=true"@,
        "--http-accept-gzip=true"@,
        "--remote-time=true"@,
        "--human-readable=false"@,
    ]
}

/// The whole invocation: fixed and numeric tokens, the transfer-rate token
/// if a rate is configured, the client-identification token if one is
/// configured, and the URL last.
pub open spec fn invocation_spec(dir: Seq<char>, name: Seq<char>, url: Seq<char>, c: Cli) -> Seq<
    Seq<char>,
> {
    fixed_tokens(dir, name, c) + (match c.max_speed {
        Some(s) => seq!["--max-download-limit="@ + s@],
        None => Seq::<Seq<char>>::empty(),
    }) + (match c.user_agent {
        Some(u) => seq!["--user-agent="@ + u@],
        None => Seq::<Seq<char>>::empty(),
    }) + seq![url]
}

fn str_flag(token: &str) -> (r: String)
    ensures
        r@ == token@,
{
    String::from_str(token)
}

fn opt_flag(prefix: &str, value: &str) -> (r: String)
    ensures
        r@ == prefix@ + value@,
{
    String::from_str(prefix).concat(value)
}

fn num_flag(prefix: &str, n: u64) -> (r: String)
    ensures
        r@ == prefix@ + dec_rep(n as nat),
{
    String::from_str(prefix).concat(u64_to_string(n).as_str())
}

/// Build the ordered argument vector for the external downloader.
pub fn build_aria2c_args(target_dir: &str, filename: &str, url: &str, config: &Cli) -> (r: Vec<
    String,
>)
    ensures
        r@.len() == invocation_spec(target_dir@, filename@, url@, *config).len(),
        forall|i: int|
            0 <= i < r@.len() ==> r@[i]@ == invocation_spec(target_dir@, filename@, url@, *config)[i],
{
    let ghost toks = invocation_spec(target_dir@, filename@, url@, *config);
    let mut args: Vec<String> = Vec::new();
    args.push(opt_flag("--dir=", target_dir));
    args.push(opt_flag("--out=", filename));
    args.push(str_flag("--continue=true"));
    args.push(str_flag("--max-connection-per-server=16"));
    args.push(str_flag("--split=32"));
    args.push(str_flag("--min-split-size=1M"));
    args.push(str_flag("--file-allocation=falloc"));
    args.push(num_flag("--max-tries=", config.max_tries as u64));
    args.push(num_flag("--retry-wait=", config.retry_wait));
    args.push(num_flag("--connect-timeout=", config.connect_timeout));
    args.push(num_flag("--timeout=", config.timeout));
    args.push(str_flag("--max-file-not-found=3"));
    args.push(str_flag("--summary-interval=1"));
    args.push(str_flag("--console-log-level=warn"));
    args.push(str_flag("--auto-file-renaming=false"));
    args.push(str_flag("--allow-overwrite=true"));
    args.push(str_flag("--conditional-get=true"));
    args.push(str_flag("--check-integrity=true"));
    args.push(str_flag("--disk-cache=128M"));
    args.push(str_flag("--async-dns=true"));
    args.push(str_flag("--http-accept-gzip=true"));
    args.push(str_flag("--remote-time=true"));
    args.push(str_flag("--human-readable=false"));
    match &config.max_speed {
        Some(speed) => {
            args.push(opt_flag("--max-download-limit=", speed.as_str()));
        }
        None => {}
    }
    match &config.user_agent {
        Some(ua) => {
            args.push(opt_flag("--user-agent=", ua.as_str()));
        }
        None => {}
    }
    args.push(String::from_str(url));
    proof {
        assert(args@.len() == toks.len());
        assert forall|i: int| 0 <= i < args@.len() implies args@[i]@ == toks[i] by {
            assert(args@[i]@ == toks[i]);
        }
    }
    args
}

/// A token other than the final URL token that carries the given prefix.
pub open spec fn has_flag_with_prefix(toks: Seq<Seq<char>>, p: Seq<char>) -> bool {
    exists|i: int| 0 <= i < toks.len() - 1 && has_prefix(toks[i], p)
}

/// Shape of every built invocation: the directory and output-name tokens
/// are present, the URL is the final token, and among the flag tokens a
/// transfer-rate token stands exactly when a rate is configured, a
/// client-identification token exactly when one is configured.
pub proof fn lemma_invocation_shape(
    dir: Seq<char>,
    name: Seq<char>,
    url: Seq<char>,
    c: Cli,
    toks: Seq<Seq<char>>,
)
    requires
        toks == invocation_spec(dir, name, url, c),
    ensures
        toks.len() >= 24,
        toks[0] == "--dir="@ + dir,
        toks[1] == "--out="@ + name,
        toks.last() == url,
        c.max_speed is Some <==> has_flag_with_prefix(toks, "--max-download-limit="@),
        c.user_agent is Some <==> has_flag_with_prefix(toks, "--user-agent="@),
{
    reveal_strlit("--dir=");
    reveal_strlit("--out=");
    reveal_strlit("--continue=true");
    reveal_strlit("--max-connection-per-server=16");
    reveal_strlit("--split=32");
    reveal_strlit("--min-split-size=1M");
    reveal_strlit("--file-allocation=falloc");
    reveal_strlit("--max-tries=");
    reveal_strlit("--retry-wait=");
    reveal_strlit("--connect-timeout=");
    reveal_strlit("--timeout=");
    reveal_strlit("--max-file-not-found=3");
    reveal_strlit("--summary-interval=1");
    reveal_strlit("--console-log-level=warn");
    reveal_strlit("--auto-file-renaming=false");
    reveal_strlit("--allow-overwrite=true");
    reveal_strlit("--conditional-get=true");
    reveal_strlit("--check-integrity=true");
    reveal_strlit("--disk-cache=128M");
    reveal_strlit("--async-dns=true");
    reveal_strlit("--http-accept-gzip=true");
    reveal_strlit("--remote-time=true");
    reveal_strlit("--human-readable=false");
    reveal_strlit("--max-download-limit=");
    reveal_strlit("--user-agent=");
    let rate = "--max-download-limit="@;
    let agent = "--user-agent="@;
    let nfix = fixed_tokens(dir, name, c).len();
    assert(nfix == 23);
    if c.max_speed is Some {
        let t = toks[23];
        assert(t == rate + c.max_speed->0@);
        assert(t.take(rate.len() as int) =~= rate);
        assert(has_prefix(t, rate));
        assert(has_flag_with_prefix(toks, rate));
    }
    if c.user_agent is Some {
        let i = if c.max_speed is Some {
            24
        } else {
            23
        };
        let t = toks[i];
        assert(t == agent + c.user_agent->0@);
        assert(t.take(agent.len() as int) =~= agent);
        assert(has_prefix(t, agent));
        assert(has_flag_with_prefix(toks, agent));
    }
    if c.max_speed is None {
        assert forall|i: int| 0 <= i < toks.len() - 1 implies !has_prefix(toks[i], rate) by {
            let t = toks[i];
            if t.len() >= rate.len() {
                if t.take(rate.len() as int) == rate {
                    assert(t[2] == rate[2] && t[3] == rate[3] && t[6] == rate[6]);
                    assert(false);
                }
            }
        }
    }
    if c.user_agent is None {
        assert forall|i: int| 0 <= i < toks.len() - 1 implies !has_prefix(toks[i], agent) by {
            let t = toks[i];
            if t.len() >= agent.len() {
                if t.take(agent.len() as int) == agent {
                    assert(t[2] == agent[2]);
                    assert(false);
                }
            }
        }
    }
}

} // verus!
