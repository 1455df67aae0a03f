use vstd::prelude::*;
use vstd::string::StringExecFns;

use crate::config::{generate_quick_tunnel_args, opt_str_view, spec_quick_tunnel_args};
use crate::path::FsPath;
use crate::cloudflared::{LaunchCommand, launch_view, spec_launch};
use crate::text::{chars_of, matches_at, occurs_at, string_from_chars};

verus! {

/// The name under which the quick tunnel's status is recorded.
pub const QUICK_TUNNEL_NAME: &'static str = "quick-tunnel";

/// Whether `c` has Unicode's `White_Space` property: the controls from tab to carriage
/// return, space, next line, no-break space, ogham space mark, the spaces from en quad to
/// hair space, line and paragraph separators, narrow no-break space, medium mathematical
/// space and ideographic space.
pub open spec fn is_white_space(c: char) -> bool {
    let u = c as u32;
    ||| (0x9 <= u && u <= 0xD)
    ||| u == 0x20
    ||| u == 0x85
    ||| u == 0xA0
    ||| u == 0x1680
    ||| (0x2000 <= u && u <= 0x200A)
    ||| u == 0x2028
    ||| u == 0x2029
    ||| u == 0x202F
    ||| u == 0x205F
    ||| u == 0x3000
}

/// Whether `c` has Unicode's `White_Space` property, as `char::is_whitespace` answers.
fn char_is_whitespace(c: char) -> (r: bool)
    ensures
        r == is_white_space(c),
{
    let u = c as u32;
    (0x9 <= u && u <= 0xD) || u == 0x20 || u == 0x85 || u == 0xA0 || u == 0x1680 || (0x2000 <= u
        && u <= 0x200A) || u == 0x2028 || u == 0x2029 || u == 0x202F || u == 0x205F || u == 0x3000
}

/// A character that ends an address in cloudflared's output.
pub open spec fn ends_url(c: char) -> bool {
    is_white_space(c) || c == '|'
}

/// `k` is the first position at or after `start` that ends the address.
pub open spec fn is_url_end(line: Seq<char>, start: int, k: int) -> bool {
    &&& start <= k < line.len()
    &&& ends_url(line[k])
    &&& forall|j: int| start <= j < k ==> !ends_url(#[trigger] line[j])
}

/// Where the address that starts at `start` ends: at the first whitespace or `|`, or at the
/// end of the line.
pub open spec fn url_end(line: Seq<char>, start: int) -> int {
    if exists|k: int| is_url_end(line, start, k) {
        choose|k: int| is_url_end(line, start, k)
    } else {
        line.len() as int
    }
}

/// The domain of quick tunnels.
pub open spec fn quick_domain() -> Seq<char> {
    ".trycloudflare.com"@
}

/// An address starts at `s` that is a quick tunnel's: `https://` begins there, and the text
/// from there to the next whitespace or `|` holds `.trycloudflare.com`.
pub open spec fn quick_url_at(line: Seq<char>, s: int) -> bool {
    &&& occurs_at(line, "https://"@, s)
    &&& exists|i: int|
        s <= i && i + quick_domain().len() <= url_end(line, s) && #[trigger] occurs_at(
            line,
            quick_domain(),
            i,
        )
}

/// `s` is where the first quick tunnel address of the line starts.
pub open spec fn is_first_quick_url(line: Seq<char>, s: int) -> bool {
    &&& quick_url_at(line, s)
    &&& forall|j: int| 0 <= j < s ==> !#[trigger] quick_url_at(line, j)
}

/// The public address in a line of cloudflared's output: the first `https://` address, cut
/// at the next whitespace or `|`, that is itself a `.trycloudflare.com` address.
pub open spec fn spec_quick_tunnel_url(line: Seq<char>) -> Option<Seq<char>> {
    if exists|s: int| is_first_quick_url(line, s) {
        let s = choose|s: int| is_first_quick_url(line, s);
        Some(line.subrange(s, url_end(line, s)))
    } else {
        None
    }
}

/// Where the address that starts at `start` ends.
fn end_of_url(chars: &Vec<char>, start: usize) -> (e: usize)
    requires
        start <= chars@.len(),
    ensures
        e as int == url_end(chars@, start as int),
        start <= e <= chars@.len(),
{
    let n = chars.len();
    let mut end = start;
    while end < n
        invariant
            n == chars@.len(),
            start <= end <= n,
            forall|j: int| start <= j < end ==> !ends_url(#[trigger] chars@[j]),
        ensures
            start <= end <= n,
            forall|j: int| start <= j < end ==> !ends_url(#[trigger] chars@[j]),
            end < n ==> ends_url(chars@[end as int]),
        decreases n - end,
    {
        let c = chars[end];
        if char_is_whitespace(c) || c == '|' {
            break;
        }
        end = end + 1;
    }
    proof {
        if end < n {
            assert(is_url_end(chars@, start as int, end as int));
        }
        if exists|k: int| is_url_end(chars@, start as int, k) {
            let k = choose|k: int| is_url_end(chars@, start as int, k);
            assert(!(k < end) && !(end < k) ==> k == end);
        }
    }
    end
}

/// Whether `pat` occurs in `s` wholly between positions `from` and `to`.
fn occurs_within(s: &Vec<char>, pat: &Vec<char>, from: usize, to: usize) -> (r: bool)
    requires
        from <= to <= s@.len(),
    ensures
        r == exists|i: int| from <= i && i + pat@.len() <= to && #[trigger] occurs_at(s@, pat@, i),
{
    if pat.len() > to - from {
        return false;
    }
    let last = to - pat.len();
    let mut i = from;
    while i < last
        invariant
            from <= i <= last,
            last + pat@.len() == to,
            to <= s@.len(),
            forall|j: int| from <= j < i ==> !#[trigger] occurs_at(s@, pat@, j),
        decreases last - i,
    {
        if matches_at(s, pat, i) {
            return true;
        }
        i = i + 1;
    }
    if matches_at(s, pat, last) {
        return true;
    }
    assert forall|j: int| from <= j && j + pat@.len() <= to implies !#[trigger] occurs_at(
        s@,
        pat@,
        j,
    ) by {
        assert(j <= last);
    }
    false
}

/// Whether a quick tunnel address starts at `s`.
fn quick_url_starts_at(chars: &Vec<char>, scheme: &Vec<char>, domain: &Vec<char>, s: usize) -> (r:
    bool)
    requires
        s <= chars@.len(),
        scheme@ == "https://"@,
        domain@ == quick_domain(),
    ensures
        r == quick_url_at(chars@, s as int),
{
    if !matches_at(chars, scheme, s) {
        return false;
    }
    let e = end_of_url(chars, s);
    occurs_within(chars, domain, s, e)
}

/// The characters from `from` up to `to`, as a string.
fn substring(chars: &Vec<char>, from: usize, to: usize) -> (r: String)
    requires
        from <= to <= chars@.len(),
    ensures
        r@ == chars@.subrange(from as int, to as int),
{
    let mut out: Vec<char> = Vec::new();
    let mut k = from;
    while k < to
        invariant
            from <= k <= to <= chars@.len(),
            out@ == chars@.subrange(from as int, k as int),
        decreases to - k,
    {
        out.push(chars[k]);
        assert(chars@.subrange(from as int, k + 1) =~= chars@.subrange(from as int, k as int).push(
            chars@[k as int],
        ));
        k = k + 1;
    }
    string_from_chars(out)
}

/// Finds the public trycloudflare.com address in a line that cloudflared printed.
pub fn extract_quick_tunnel_url(line: &str) -> (url: Option<String>)
    ensures
        opt_str_view(url) == spec_quick_tunnel_url(line@),
{
    let chars = chars_of(line);
    let scheme = chars_of("https://");
    let domain = chars_of(".trycloudflare.com");
    let n = chars.len();
    let mut s: usize = 0;
    loop
        invariant
            n == chars@.len(),
            chars@ == line@,
            scheme@ == "https://"@,
            domain@ == quick_domain(),
            s <= n,
            forall|j: int| 0 <= j < s ==> !#[trigger] quick_url_at(chars@, j),
        ensures
            forall|j: int| 0 <= j <= n ==> !#[trigger] quick_url_at(chars@, j),
        decreases n + 1 - s,
    {
        if quick_url_starts_at(&chars, &scheme, &domain, s) {
            proof {
                assert(is_first_quick_url(chars@, s as int));
                let k = choose|k: int| is_first_quick_url(chars@, k);
                if k < s {
                    assert(!quick_url_at(chars@, k));
                }
                if s < k {
                    assert(!quick_url_at(chars@, s as int));
                }
                assert(k == s);
            }
            let e = end_of_url(&chars, s);
            let url = substring(&chars, s, e);
            return Some(url);
        }
        if s == n {
            break;
        }
        s = s + 1;
    }
    proof {
        assert forall|j: int| !is_first_quick_url(chars@, j) by {
            if j > n {
                assert(!occurs_at(chars@, "https://"@, j));
            } else if 0 <= j {
                assert(!quick_url_at(chars@, j));
            }
        }
    }
    None
}

/// The error when no cloudflared can be found to start a quick tunnel.
pub open spec fn quick_binary_missing_message() -> Seq<char> {
    "cloudflared not installed"@
}

/// How `start_quick_tunnel` launches cloudflared, given the binary that was resolved.
pub fn quick_tunnel_command(binary: Option<FsPath>, local_port: u16, protocol: &str) -> (r: Result<
    LaunchCommand,
    String,
>)
    ensures
        launch_view(r) == spec_launch(
            binary,
            spec_quick_tunnel_args(local_port, protocol@),
            quick_binary_missing_message(),
        ),
{
    match binary {
        None => Err(String::from_str("cloudflared not installed")),
        Some(b) => Ok(LaunchCommand { binary: b, args: generate_quick_tunnel_args(local_port, protocol) }),
    }
}

} // verus!
