//! What the app reads out of `adb`'s output: whether `adb connect` and
//! `adb pair` succeeded, the device list of `adb devices`, the properties of
//! `adb shell getprop` and the services of `adb mdns services`.
use vstd::prelude::*;
use crate::text::{
    self, decimal, owned, push_all, push_decimal, split_on, trim_str, chars_of, contains_exec, find_exec, is_whitespace, split_lines, split_words,
    starts_with_ci_exec, str_starts_with, string_of, string_of_range, sub_vec, trim_bounds,
    trim_vec,
};
use crate::maps::{self, PropMap, StatusMap};
use crate::platform::{adb_binary_name, path_separator, Platform};
use crate::search::{candidate_views, in_dirs, path_dirs, push_arg, push_in_dirs, push_one, push_string_arg, str_opt};
use crate::quote::{self, applescript_string_literal, shell_quote};

verus! {

// ---------------------------------------------------------------------------
// adb connect / adb pair
// ---------------------------------------------------------------------------

/// The last line that, trimmed, is neither blank nor a '*' daemon notice.
pub open spec fn last_result_line(ls: Seq<Seq<char>>) -> Option<Seq<char>>
    decreases ls.len(),
{
    if ls.len() == 0 {
        None
    } else {
        let l = text::trim(ls.last());
        if l.len() > 0 && l[0] != '*' {
            Some(l)
        } else {
            last_result_line(ls.drop_last())
        }
    }
}

/// `adb connect` succeeded: its result line starts with "connected to" or
/// "already connected".
pub open spec fn connect_ok(output: Seq<char>) -> bool {
    match last_result_line(text::lines(output)) {
        Some(l) => text::starts_with(l, "connected to"@) || text::starts_with(
            l,
            "already connected"@,
        ),
        None => false,
    }
}

/// `adb pair` succeeded: some line, trimmed, starts with "successfully paired"
/// in any case (compared after lowercasing).
pub open spec fn pair_ok(output: Seq<char>) -> bool {
    exists|i: int|
        0 <= i < text::lines(output).len() && text::starts_with_ci(
            text::trim(#[trigger] text::lines(output)[i]),
            "successfully paired"@,
        )
}

/// `adb connect` always exits 0, even for failures like
/// "failed to connect to 'host:port': Connection refused". Success is declared only by
/// a result line "connected to <addr>" or "already connected to <addr>"; lines starting
/// with '*' (daemon startup notices on older adb builds) are not result lines.
pub fn connect_succeeded(output: &str) -> (r: bool)
    ensures
        r == connect_ok(output@),
{
    let ls = split_lines(output);
    let p1 = chars_of("connected to");
    let p2 = chars_of("already connected");
    let ghost all = text::vviews(ls@);
    let mut i = ls.len();
    assert(all.take(all.len() as int) =~= all);
    while i > 0
        invariant
            i <= ls@.len(),
            all == text::vviews(ls@),
            all == text::lines(output@),
            p1@ == "connected to"@,
            p2@ == "already connected"@,
            last_result_line(all) == last_result_line(all.take(i as int)),
        decreases i,
    {
        let l = trim_vec(&ls[i - 1]);
        assert(all.take(i as int).drop_last() =~= all.take(i - 1));
        assert(all.take(i as int).last() == ls@[i - 1]@);
        if l.len() > 0 && l[0] != '*' {
            return text::starts_with_exec(&l, &p1) || text::starts_with_exec(&l, &p2);
        }
        i = i - 1;
    }
    false
}

/// `adb pair` announces success by printing a "Successfully paired to <addr>" line
/// (possibly after daemon notices); failures print "Failed to pair ..." / "error: ...".
/// Exit codes alone are not trusted, mirroring `adb connect`.
pub fn pair_succeeded(output: &str) -> (r: bool)
    ensures
        r == pair_ok(output@),
{
    let ls = split_lines(output);
    let ghost all = text::vviews(ls@);
    let mut i: usize = 0;
    while i < ls.len()
        invariant
            i <= ls@.len(),
            all == text::vviews(ls@),
            all == text::lines(output@),
            forall|j: int|
                0 <= j < i ==> !text::starts_with_ci(
                    text::trim(#[trigger] all[j]),
                    "successfully paired"@,
                ),
        decreases ls@.len() - i,
    {
        let l = trim_vec(&ls[i]);
        if starts_with_ci_exec(&l, "successfully paired") {
            assert(all[i as int] == ls@[i as int]@);
            return true;
        }
        i = i + 1;
    }
    false
}

// ---------------------------------------------------------------------------
// adb devices
// ---------------------------------------------------------------------------

/// The first index at or after `i` holding a whitespace character.
pub open spec fn first_ws(s: Seq<char>, i: int) -> Option<int>
    decreases s.len() - i,
{
    if i < 0 || i >= s.len() {
        None
    } else if text::is_ws(s[i]) {
        Some(i)
    } else {
        first_ws(s, i + 1)
    }
}

/// A whitespace position found from `i` lies in `s`, at or after `i`.
pub proof fn lemma_first_ws(s: Seq<char>, i: int)
    ensures
        match first_ws(s, i) {
            Some(k) => 0 <= i <= k < s.len() && text::is_ws(s[k]),
            None => true,
        },
    decreases s.len() - i,
{
    if !(i < 0 || i >= s.len()) && !text::is_ws(s[i]) {
        lemma_first_ws(s, i + 1);
    }
}

/// The status shown for an `adb devices` state: "device" reads "connected",
/// every other state is kept as it is.
pub open spec fn status_label(s: Seq<char>) -> Seq<char> {
    if s == "device"@ {
        "connected"@
    } else {
        s
    }
}

/// The address and status of an `adb devices` line, if it is a device entry:
/// not blank, not a '*' notice, not the header, and holding a status after the
/// address.
pub open spec fn device_entry(line: Seq<char>) -> Option<maps::Entry> {
    let l = text::trim(line);
    if l.len() == 0 || l[0] == '*' || l == "List of devices attached"@ {
        None
    } else {
        match first_ws(l, 0) {
            None => None,
            Some(k) => Some((l.take(k), status_label(text::trim(l.skip(k + 1))))),
        }
    }
}

/// The address -> status entries of the lines `ls`, later lines overriding.
pub open spec fn devices_of(ls: Seq<Seq<char>>) -> Seq<maps::Entry>
    decreases ls.len(),
{
    if ls.len() == 0 {
        Seq::empty()
    } else {
        let m = devices_of(ls.drop_last());
        match device_entry(ls.last()) {
            Some(e) => maps::upsert(m, e.0, e.1),
            None => m,
        }
    }
}

/// The index of the first whitespace character in `v` at or after `i`.
fn first_ws_exec(v: &Vec<char>, i: usize) -> (r: Option<usize>)
    ensures
        match r {
            Some(k) => first_ws(v@, i as int) == Some(k as int),
            None => first_ws(v@, i as int) is None,
        },
{
    let mut k = i;
    while k < v.len()
        invariant
            i <= k,
            first_ws(v@, i as int) == first_ws(v@, k as int),
        decreases v@.len() - k,
    {
        if is_whitespace(v[k]) {
            return Some(k);
        }
        k = k + 1;
    }
    None
}

/// The entry of one `adb devices` line.
fn device_entry_exec(line: &Vec<char>) -> (r: Option<(String, String)>)
    ensures
        match r {
            Some(e) => device_entry(line@) == Some((e.0@, e.1@)),
            None => device_entry(line@) is None,
        },
{
    let l = trim_vec(line);
    let header = chars_of("List of devices attached");
    if l.len() == 0 || l[0] == '*' || text::chars_eq(&l, &header) {
        return None;
    }
    match first_ws_exec(&l, 0) {
        None => None,
        Some(k) => {
            proof {
                lemma_first_ws(l@, 0);
            }
            let address = string_of_range(&l, 0, k);
            let (a, b) = trim_bounds(&l, k + 1, l.len());
            assert(l@.subrange(0, k as int) =~= l@.take(k as int));
            assert(l@.subrange(k + 1, l@.len() as int) =~= l@.skip(k + 1));
            let st = sub_vec(&l, a, b);
            let device = chars_of("device");
            let status = if text::chars_eq(&st, &device) {
                text::owned("connected")
            } else {
                string_of(&st)
            };
            Some((address, status))
        },
    }
}

/// Parse `adb devices` stdout into an address -> status map. A line only counts as a
/// device entry when it carries a status field; the "List of devices attached" header
/// and '*' daemon notices (printed to stdout by some adb builds) are skipped instead
/// of relying on the header always being the first line.
pub fn parse_devices_output(output: &str) -> (r: StatusMap)
    ensures
        r@ == devices_of(text::lines(output@)),
{
    let ls = split_lines(output);
    let ghost all = text::vviews(ls@);
    let mut m = StatusMap::new();
    let mut i: usize = 0;
    while i < ls.len()
        invariant
            i <= ls@.len(),
            all == text::vviews(ls@),
            all == text::lines(output@),
            m@ == devices_of(all.take(i as int)),
        decreases ls@.len() - i,
    {
        assert(all.take(i + 1).drop_last() =~= all.take(i as int));
        assert(all.take(i + 1).last() == ls@[i as int]@);
        match device_entry_exec(&ls[i]) {
            Some(e) => {
                m.insert(e.0, e.1);
            },
            None => {},
        }
        i = i + 1;
    }
    assert(all.take(all.len() as int) =~= all);
    m
}

// ---------------------------------------------------------------------------
// adb shell getprop
// ---------------------------------------------------------------------------

/// `s` without its leading `c` characters (`str::trim_start_matches`).
pub open spec fn strip_leading(s: Seq<char>, c: char) -> Seq<char>
    decreases s.len(),
{
    if s.len() > 0 && s[0] == c {
        strip_leading(s.drop_first(), c)
    } else {
        s
    }
}

/// `s` without one trailing `c`, if it ends in one (`str::strip_suffix`, or `s`).
pub open spec fn strip_one_trailing(s: Seq<char>, c: char) -> Seq<char> {
    if s.len() > 0 && s.last() == c {
        s.drop_last()
    } else {
        s
    }
}

/// The key and value of a `getprop` line of the shape `[key]: [value]`: the
/// line, trimmed, starts with '[' and holds "]: ["; the key is the text before
/// the first "]: [" without its leading '[' and trimmed, and must not be empty;
/// the value is the rest of the line without one trailing ']'.
pub open spec fn prop_entry(line: Seq<char>) -> Option<maps::Entry> {
    let l = text::trim(line);
    if l.len() == 0 || l[0] != '[' {
        None
    } else {
        match text::find(l, "]: ["@) {
            None => None,
            Some(k) => {
                let key = text::trim(strip_leading(l.take(k), '['));
                if key.len() == 0 {
                    None
                } else {
                    Some((key, strip_one_trailing(l.skip(k + "]: ["@.len()), ']')))
                }
            },
        }
    }
}

/// The property entries of the lines `ls`, sorted by key, later lines overriding.
pub open spec fn props_of(ls: Seq<Seq<char>>) -> Seq<maps::Entry>
    decreases ls.len(),
{
    if ls.len() == 0 {
        Seq::empty()
    } else {
        let m = props_of(ls.drop_last());
        match prop_entry(ls.last()) {
            Some(e) => maps::sorted_upsert(m, e.0, e.1),
            None => m,
        }
    }
}

/// The entry of one `getprop` line.
fn prop_entry_exec(line: &Vec<char>) -> (r: Option<(String, String)>)
    ensures
        match r {
            Some(e) => prop_entry(line@) == Some((e.0@, e.1@)),
            None => prop_entry(line@) is None,
        },
{
    let l = trim_vec(line);
    if l.len() == 0 || l[0] != '[' {
        return None;
    }
    let sep = chars_of("]: [");
    match find_exec(&l, &sep, 0) {
        None => None,
        Some(k) => {
            proof {
                text::lemma_find_from_some(l@, sep@, 0);
            }
            let mut a: usize = 0;
            assert(l@.subrange(0, k as int) =~= l@.take(k as int));
            while a < k && l[a] == '['
                invariant
                    a <= k,
                    k + sep@.len() <= l@.len(),
                    strip_leading(l@.take(k as int), '[') == strip_leading(
                        l@.subrange(a as int, k as int),
                        '[',
                    ),
                decreases k - a,
            {
                assert(l@.subrange(a as int, k as int).drop_first() =~= l@.subrange(
                    a + 1,
                    k as int,
                ));
                a = a + 1;
            }
            assert(strip_leading(l@.subrange(a as int, k as int), '[') == l@.subrange(
                a as int,
                k as int,
            ));
            let (ka, kb) = trim_bounds(&l, a, k);
            if ka == kb {
                return None;
            }
            let key = string_of_range(&l, ka, kb);
            let vstart = k + sep.len();
            let mut vend = l.len();
            if vend > vstart && l[vend - 1] == ']' {
                vend = vend - 1;
            }
            let value = string_of_range(&l, vstart, vend);
            assert(l@.subrange(vstart as int, l@.len() as int) =~= l@.skip(vstart as int));
            assert(l@.subrange(vstart as int, vend as int) =~= strip_one_trailing(
                l@.skip(vstart as int),
                ']',
            ));
            Some((key, value))
        },
    }
}

/// Parse `adb shell getprop` output lines like `[ro.product.model]: [Pixel 8]`
/// into a key -> value map (sorted, since keys come out in arbitrary order).
pub fn parse_getprop_output(output: &str) -> (r: PropMap)
    ensures
        r@ == props_of(text::lines(output@)),
{
    let ls = split_lines(output);
    let ghost all = text::vviews(ls@);
    let mut m = PropMap::new();
    let mut i: usize = 0;
    while i < ls.len()
        invariant
            i <= ls@.len(),
            all == text::vviews(ls@),
            all == text::lines(output@),
            m@ == props_of(all.take(i as int)),
        decreases ls@.len() - i,
    {
        assert(all.take(i + 1).drop_last() =~= all.take(i as int));
        assert(all.take(i + 1).last() == ls@[i as int]@);
        match prop_entry_exec(&ls[i]) {
            Some(e) => {
                m.insert(e.0, e.1);
            },
            None => {},
        }
        i = i + 1;
    }
    assert(all.take(all.len() as int) =~= all);
    m
}

// ---------------------------------------------------------------------------
// adb mdns services
// ---------------------------------------------------------------------------

/// A service discovered over mDNS.
#[derive(Clone, Debug)]
pub struct MdnsService {
    pub name: String,
    /// "pairing" for _adb-tls-pairing services, "connect" for everything else.
    pub kind: String,
    /// Raw mDNS service type, e.g. "_adb._tcp" or "_adb-tls-pairing._tcp".
    pub service_type: String,
    /// ip:port advertised by the service.
    pub address: String,
}

/// The model of an `MdnsService`.
pub struct MdnsServiceView {
    pub name: Seq<char>,
    pub kind: Seq<char>,
    pub service_type: Seq<char>,
    pub address: Seq<char>,
}

impl View for MdnsService {
    type V = MdnsServiceView;

    open spec fn view(&self) -> MdnsServiceView {
        MdnsServiceView {
            name: self.name@,
            kind: self.kind@,
            service_type: self.service_type@,
            address: self.address@,
        }
    }
}

/// The views of a sequence of services.
pub open spec fn service_views(v: Seq<MdnsService>) -> Seq<MdnsServiceView> {
    v.map_values(|s: MdnsService| s@)
}

/// What the words of a service line have told so far.
pub struct TokenFields {
    pub name: Option<Seq<char>>,
    pub service_type: Option<Seq<char>>,
    pub address: Option<Seq<char>>,
}

/// Reads one word `t` of a service line; `is_addr` says whether it is a socket
/// address. An address is the address; a word starting with "_adb" is the
/// service type; a word holding "._adb" is `<name>._adb<type>`; the first other
/// word is the name.
pub open spec fn token_step(f: TokenFields, t: Seq<char>, is_addr: bool) -> TokenFields {
    if is_addr {
        TokenFields { name: f.name, service_type: f.service_type, address: Some(t) }
    } else if text::starts_with(t, "_adb"@) {
        TokenFields { name: f.name, service_type: Some(t), address: f.address }
    } else if text::contains(t, "._adb"@) {
        let k = text::find(t, "._adb"@)->0;
        TokenFields { name: Some(t.take(k)), service_type: Some(t.skip(k + 1)), address: f.address }
    } else if f.name is None {
        TokenFields { name: Some(t), service_type: f.service_type, address: f.address }
    } else {
        f
    }
}

/// The fields read from the words `ts`, with `flags[i]` telling whether `ts[i]`
/// is a socket address.
pub open spec fn fields_of(ts: Seq<Seq<char>>, flags: Seq<bool>) -> TokenFields
    decreases ts.len(),
{
    if ts.len() == 0 || flags.len() == 0 {
        TokenFields { name: None, service_type: None, address: None }
    } else {
        token_step(fields_of(ts.drop_last(), flags.drop_last()), ts.last(), flags.last())
    }
}

/// The service of a line's words, when they name all of name, type and address;
/// its kind is "pairing" when the type mentions "pairing", else "connect".
pub open spec fn service_from(ts: Seq<Seq<char>>, flags: Seq<bool>) -> Option<MdnsServiceView> {
    let f = fields_of(ts, flags);
    if f.name is Some && f.service_type is Some && f.address is Some {
        let st = f.service_type->0;
        Some(
            MdnsServiceView {
                name: f.name->0,
                kind: if text::contains(st, "pairing"@) {
                    "pairing"@
                } else {
                    "connect"@
                },
                service_type: st,
                address: f.address->0,
            },
        )
    } else {
        None
    }
}

/// The header and preamble lines that `adb mdns services` prints.
pub open spec fn mdns_preamble(l: Seq<char>) -> bool {
    ||| text::starts_with_ci(l, "list of discovered"@)
    ||| text::starts_with_ci(l, "mdns discovery"@)
    ||| text::starts_with_ci(l, "adb mdns backend"@)
    ||| text::starts_with_ci(l, "mdns daemon"@)
}

/// The words of the output lines that can describe a service: every line
/// that, trimmed, is neither blank nor a header or preamble line, in order.
pub open spec fn mdns_word_lines_of(ls: Seq<Seq<char>>) -> Seq<Seq<Seq<char>>>
    decreases ls.len(),
{
    if ls.len() == 0 {
        Seq::empty()
    } else {
        let m = mdns_word_lines_of(ls.drop_last());
        let l = text::trim(ls.last());
        if l.len() == 0 || mdns_preamble(l) {
            m
        } else {
            m.push(text::words(l))
        }
    }
}

/// The services named by candidate lines `wl`, where `flags[i][j]` tells
/// whether word `j` of line `i` is a socket address; lines that name no
/// complete service are skipped.
pub open spec fn services_of(wl: Seq<Seq<Seq<char>>>, flags: Seq<Seq<bool>>) -> Seq<MdnsServiceView>
    decreases wl.len(),
{
    if wl.len() == 0 || flags.len() == 0 {
        Seq::empty()
    } else {
        let m = services_of(wl.drop_last(), flags.drop_last());
        match service_from(wl.last(), flags.last()) {
            Some(s) => m.push(s),
            None => m,
        }
    }
}

/// Reads one word of a service line into `(name, service_type, address)`.
fn token_step_exec(
    fields: (Option<String>, Option<String>, Option<String>),
    token: &String,
    is_addr: bool,
) -> (r: (Option<String>, Option<String>, Option<String>))
    ensures
        token_step(
            TokenFields {
                name: text::opt_view(fields.0),
                service_type: text::opt_view(fields.1),
                address: text::opt_view(fields.2),
            },
            token@,
            is_addr,
        ) == (TokenFields {
            name: text::opt_view(r.0),
            service_type: text::opt_view(r.1),
            address: text::opt_view(r.2),
        }),
{
    let (name, service_type, address) = fields;
    if is_addr {
        return (name, service_type, Some(token.clone()));
    }
    let t = chars_of(token.as_str());
    if str_starts_with(&t, "_adb") {
        return (name, Some(token.clone()), address);
    }
    let pat = chars_of("._adb");
    match find_exec(&t, &pat, 0) {
        Some(k) => {
            proof {
                text::lemma_find_from_some(t@, pat@, 0);
                reveal_strlit("._adb");
            }
            let tl = t.len();
            let n = string_of_range(&t, 0, k);
            let st = string_of_range(&t, k + 1, tl);
            assert(t@.subrange(0, k as int) =~= t@.take(k as int));
            assert(t@.subrange(k + 1, t@.len() as int) =~= t@.skip(k + 1));
            (Some(n), Some(st), address)
        },
        None => {
            if name.is_none() {
                (Some(token.clone()), service_type, address)
            } else {
                (name, service_type, address)
            }
        },
    }
}

/// The service named by the words of one `adb mdns services` line, where
/// `addr_flags[i]` tells whether `tokens[i]` parses as a socket address.
pub fn mdns_service_from_tokens(tokens: &Vec<String>, addr_flags: &Vec<bool>) -> (r: Option<
    MdnsService,
>)
    requires
        tokens@.len() == addr_flags@.len(),
    ensures
        match r {
            Some(s) => service_from(text::sviews(tokens@), addr_flags@) == Some(s@),
            None => service_from(text::sviews(tokens@), addr_flags@) is None,
        },
{
    let ghost ts = text::sviews(tokens@);
    let mut fields: (Option<String>, Option<String>, Option<String>) = (None, None, None);
    let mut i: usize = 0;
    while i < tokens.len()
        invariant
            i <= tokens@.len(),
            tokens@.len() == addr_flags@.len(),
            ts == text::sviews(tokens@),
            fields_of(ts.take(i as int), addr_flags@.take(i as int)) == (TokenFields {
                name: text::opt_view(fields.0),
                service_type: text::opt_view(fields.1),
                address: text::opt_view(fields.2),
            }),
        decreases tokens@.len() - i,
    {
        assert(ts.take(i + 1).drop_last() =~= ts.take(i as int));
        assert(addr_flags@.take(i + 1).drop_last() =~= addr_flags@.take(i as int));
        assert(ts.take(i + 1).last() == tokens@[i as int]@);
        fields = token_step_exec(fields, &tokens[i], addr_flags[i]);
        i = i + 1;
    }
    assert(ts.take(ts.len() as int) =~= ts);
    assert(addr_flags@.take(addr_flags@.len() as int) =~= addr_flags@);
    match fields {
        (Some(name), Some(service_type), Some(address)) => {
            let st = chars_of(service_type.as_str());
            let kind = if contains_exec(&st, "pairing") {
                text::owned("pairing")
            } else {
                text::owned("connect")
            };
            Some(MdnsService { name, kind, service_type, address })
        },
        _ => None,
    }
}

/// The views of nested string vectors.
pub open spec fn word_line_views(v: Seq<Vec<String>>) -> Seq<Seq<Seq<char>>> {
    v.map_values(|l: Vec<String>| text::sviews(l@))
}

/// The first step of reading `adb mdns services` output: the words of each
/// line that may describe a service. Seen formats:
/// - openscreen backend (adb >= 33): `<name>\t<_adb...>\t<ip:port>` per line
/// - older bonjour backend: `<name>._adb-tls-pairing._tcp.\t<host>\t<ip:port>`
///
/// Blank lines and header/preamble lines are skipped.
pub fn mdns_word_lines(output: &str) -> (r: Vec<Vec<String>>)
    ensures
        word_line_views(r@) == mdns_word_lines_of(text::lines(output@)),
{
    let ls = split_lines(output);
    let ghost all = text::vviews(ls@);
    let mut out: Vec<Vec<String>> = Vec::new();
    let mut i: usize = 0;
    while i < ls.len()
        invariant
            i <= ls@.len(),
            all == text::vviews(ls@),
            all == text::lines(output@),
            word_line_views(out@) == mdns_word_lines_of(all.take(i as int)),
        decreases ls@.len() - i,
    {
        assert(all.take(i + 1).drop_last() =~= all.take(i as int));
        assert(all.take(i + 1).last() == ls@[i as int]@);
        let line = &ls[i];
        let (a, b) = trim_bounds(line, 0, line.len());
        assert(line@.subrange(0, line@.len() as int) =~= line@);
        let l = sub_vec(line, a, b);
        let skip = l.len() == 0 || starts_with_ci_exec(&l, "list of discovered")
            || starts_with_ci_exec(&l, "mdns discovery") || starts_with_ci_exec(
            &l,
            "adb mdns backend",
        ) || starts_with_ci_exec(&l, "mdns daemon");
        if !skip {
            let ws = split_words(&l, 0, l.len());
            assert(l@.subrange(0, l@.len() as int) =~= l@);
            let mut tokens: Vec<String> = Vec::new();
            let mut j: usize = 0;
            while j < ws.len()
                invariant
                    j <= ws@.len(),
                    tokens@.len() == j,
                    forall|q: int| 0 <= q < j ==> #[trigger] tokens@[q]@ == ws@[q]@,
                decreases ws@.len() - j,
            {
                let t = string_of(&ws[j]);
                tokens.push(t);
                j = j + 1;
            }
            assert(text::sviews(tokens@) =~= text::vviews(ws@));
            let ghost old_out = out@;
            let ghost tv = text::sviews(tokens@);
            out.push(tokens);
            assert(word_line_views(out@) =~= word_line_views(old_out).push(tv));
        }
        i = i + 1;
    }
    assert(all.take(all.len() as int) =~= all);
    out
}

/// The second step of reading `adb mdns services` output: the services that
/// the candidate lines name, where `addr_flags[i][j]` tells whether word `j`
/// of line `i` parses as a socket address (ip:port). Lines without a
/// complete name, type and address are skipped.
pub fn mdns_services_from_words(word_lines: &Vec<Vec<String>>, addr_flags: &Vec<Vec<bool>>) -> (r:
    Vec<MdnsService>)
    requires
        word_lines@.len() == addr_flags@.len(),
        forall|i: int|
            0 <= i < word_lines@.len() ==> (#[trigger] word_lines@[i])@.len()
                == addr_flags@[i]@.len(),
    ensures
        service_views(r@) == services_of(
            word_line_views(word_lines@),
            addr_flags@.map_values(|f: Vec<bool>| f@),
        ),
{
    let ghost wl = word_line_views(word_lines@);
    let ghost fl = addr_flags@.map_values(|f: Vec<bool>| f@);
    let mut services: Vec<MdnsService> = Vec::new();
    let mut i: usize = 0;
    while i < word_lines.len()
        invariant
            i <= word_lines@.len(),
            word_lines@.len() == addr_flags@.len(),
            forall|q: int|
                0 <= q < word_lines@.len() ==> (#[trigger] word_lines@[q])@.len()
                    == addr_flags@[q]@.len(),
            wl == word_line_views(word_lines@),
            fl == addr_flags@.map_values(|f: Vec<bool>| f@),
            service_views(services@) == services_of(wl.take(i as int), fl.take(i as int)),
        decreases word_lines@.len() - i,
    {
        assert(wl.take(i + 1).drop_last() =~= wl.take(i as int));
        assert(fl.take(i + 1).drop_last() =~= fl.take(i as int));
        assert(wl.take(i + 1).last() == text::sviews(word_lines@[i as int]@));
        assert(fl.take(i + 1).last() == addr_flags@[i as int]@);
        assert(word_lines@[i as int]@.len() == addr_flags@[i as int]@.len());
        match mdns_service_from_tokens(&word_lines[i], &addr_flags[i]) {
            Some(svc) => {
                let ghost old_services = services@;
                services.push(svc);
                assert(service_views(services@) =~= service_views(old_services).push(svc@));
            },
            None => {},
        }
        i = i + 1;
    }
    assert(wl.take(wl.len() as int) =~= wl);
    assert(fl.take(fl.len() as int) =~= fl);
    services
}

// ---------------------------------------------------------------------------
// The adb service
// ---------------------------------------------------------------------------

/// The adb executable that every command runs.
pub struct AdbService {
    adb_path: String,
}

impl View for AdbService {
    type V = Seq<char>;

    closed spec fn view(&self) -> Seq<char> {
        self.adb_path@
    }
}

impl AdbService {
    /// The service runs the configured path; without one, the detected path;
    /// without either, plain "adb" from the `PATH`. (Detection only matters
    /// when nothing is configured.)
    pub fn new(configured_path: Option<String>, detected_path: Option<String>) -> (r: Self)
        ensures
            r@ == match configured_path {
                Some(p) => p@,
                None => match detected_path {
                    Some(d) => d@,
                    None => "adb"@,
                },
            },
    {
        let path = match configured_path {
            Some(p) => p,
            None => match detected_path {
                Some(d) => d,
                None => owned("adb"),
            },
        };
        AdbService { adb_path: path }
    }

    /// Runs the adb at `path` from now on.
    pub fn set_adb_path(&mut self, path: String)
        ensures
            final(self)@ == path@,
    {
        self.adb_path = path;
    }

    /// The adb that commands run.
    pub fn get_adb_path(&self) -> (r: String)
        ensures
            r@ == self@,
    {
        self.adb_path.clone()
    }
}

/// The file name of adb on `platform`.
pub open spec fn adb_name(platform: Platform) -> Seq<char> {
    if platform == Platform::Windows {
        "adb.exe"@
    } else {
        "adb"@
    }
}

/// The adb of an Android SDK rooted at `root`, when the variable is set.
pub open spec fn sdk_candidate(root: Option<Seq<char>>, platform: Platform) -> Seq<Seq<Seq<char>>> {
    match root {
        Some(r) => seq![seq![r, "platform-tools"@, adb_name(platform)]],
        None => Seq::empty(),
    }
}

/// The install locations particular to `platform`. On macOS they are only
/// looked at when the home directory is known.
pub open spec fn platform_adb_candidates(
    platform: Platform,
    home: Option<Seq<char>>,
    local_app_data: Option<Seq<char>>,
) -> Seq<Seq<Seq<char>>> {
    match platform {
        Platform::MacOs => match home {
            Some(h) => seq![
                seq!["/opt/homebrew/bin/adb"@],
                seq![h + "/Library/Android/sdk/platform-tools/adb"@],
                seq!["/usr/local/bin/adb"@],
            ],
            None => Seq::empty(),
        },
        Platform::Windows => (match local_app_data {
            Some(d) => seq![seq![d, "Android/Sdk/platform-tools/adb.exe"@]],
            None => Seq::empty(),
        }) + (match home {
            Some(h) => seq![seq![h, "scoop"@, "shims"@, "adb.exe"@]],
            None => Seq::empty(),
        }) + seq![seq!["C:\\ProgramData\\chocolatey\\bin\\adb.exe"@]],
        Platform::Other => Seq::empty(),
    }
}

/// The places adb is looked for, in order: each directory of `PATH`, the SDK
/// named by `ANDROID_HOME` and by `ANDROID_SDK_ROOT`, then the usual install
/// locations of the platform.
pub open spec fn adb_candidates_of(
    platform: Platform,
    path_var: Option<Seq<char>>,
    android_home: Option<Seq<char>>,
    sdk_root: Option<Seq<char>>,
    home: Option<Seq<char>>,
    local_app_data: Option<Seq<char>>,
) -> Seq<Seq<Seq<char>>> {
    in_dirs(path_dirs(path_var, platform), adb_name(platform)) + sdk_candidate(android_home, platform)
        + sdk_candidate(sdk_root, platform) + platform_adb_candidates(platform, home, local_app_data)
}

/// Appends the adb of the SDK at `root`, when set.
fn push_sdk_candidate(out: &mut Vec<Vec<String>>, root: Option<&str>, platform: Platform)
    ensures
        candidate_views(final(out)@) == candidate_views(old(out)@) + sdk_candidate(
            str_opt(root),
            platform,
        ),
{
    let ghost before = candidate_views(out@);
    match root {
        Some(r) => {
            let mut c: Vec<String> = Vec::new();
            push_arg(&mut c, r);
            push_arg(&mut c, "platform-tools");
            push_arg(&mut c, adb_binary_name(platform));
            assert(text::sviews(c@) =~= seq![r@, "platform-tools"@, adb_name(platform)]);
            push_one(out, c);
            assert(candidate_views(out@) =~= before + sdk_candidate(str_opt(root), platform));
        },
        None => {
            assert(candidate_views(out@) =~= before + sdk_candidate(str_opt(root), platform));
        },
    }
}

/// Appends the install locations particular to `platform`.
fn push_platform_candidates(
    out: &mut Vec<Vec<String>>,
    platform: Platform,
    home: Option<&str>,
    local_app_data: Option<&str>,
)
    ensures
        candidate_views(final(out)@) == candidate_views(old(out)@) + platform_adb_candidates(
            platform,
            str_opt(home),
            str_opt(local_app_data),
        ),
{
    let ghost before = candidate_views(out@);
    let ghost target = before + platform_adb_candidates(platform, str_opt(home), str_opt(local_app_data));
    match platform {
        Platform::MacOs => {
            if let Some(h) = home {
                let mut a: Vec<String> = Vec::new();
                push_arg(&mut a, "/opt/homebrew/bin/adb");
                let mut hp = owned(h);
                push_all(&mut hp, "/Library/Android/sdk/platform-tools/adb");
                let mut b: Vec<String> = Vec::new();
                push_string_arg(&mut b, hp);
                let mut c: Vec<String> = Vec::new();
                push_arg(&mut c, "/usr/local/bin/adb");
                let ghost av = text::sviews(a@);
                let ghost bv = text::sviews(b@);
                let ghost cv = text::sviews(c@);
                push_one(out, a);
                push_one(out, b);
                push_one(out, c);
                assert(av == seq!["/opt/homebrew/bin/adb"@]);
                assert(bv == seq![h@ + "/Library/Android/sdk/platform-tools/adb"@]);
                assert(cv == seq!["/usr/local/bin/adb"@]);
                assert(candidate_views(out@) =~= before + seq![av, bv, cv]);
            } else {
                assert(candidate_views(out@) =~= target);
            }
        },
        Platform::Windows => {
            let ghost t1 = match str_opt(local_app_data) {
                Some(d) => seq![seq![d, "Android/Sdk/platform-tools/adb.exe"@]],
                None => Seq::<Seq<Seq<char>>>::empty(),
            };
            let ghost t2 = match str_opt(home) {
                Some(h) => seq![seq![h, "scoop"@, "shims"@, "adb.exe"@]],
                None => Seq::<Seq<Seq<char>>>::empty(),
            };
            if let Some(d) = local_app_data {
                let mut a: Vec<String> = Vec::new();
                push_arg(&mut a, d);
                push_arg(&mut a, "Android/Sdk/platform-tools/adb.exe");
                assert(text::sviews(a@) =~= seq![d@, "Android/Sdk/platform-tools/adb.exe"@]);
                push_one(out, a);
            }
            assert(candidate_views(out@) =~= before + t1);
            let ghost mid = candidate_views(out@);
            if let Some(h) = home {
                let mut b: Vec<String> = Vec::new();
                push_arg(&mut b, h);
                push_arg(&mut b, "scoop");
                push_arg(&mut b, "shims");
                push_arg(&mut b, "adb.exe");
                assert(text::sviews(b@) =~= seq![h@, "scoop"@, "shims"@, "adb.exe"@]);
                push_one(out, b);
            }
            assert(candidate_views(out@) =~= mid + t2);
            let ghost mid2 = candidate_views(out@);
            let mut c: Vec<String> = Vec::new();
            push_arg(&mut c, "C:\\ProgramData\\chocolatey\\bin\\adb.exe");
            let ghost cv = text::sviews(c@);
            push_one(out, c);
            assert(cv == seq!["C:\\ProgramData\\chocolatey\\bin\\adb.exe"@]);
            assert(candidate_views(out@) =~= before + (t1 + t2 + seq![cv]));
        },
        Platform::Other => {
            assert(candidate_views(out@) =~= target);
        },
    }
}

/// The places adb is looked for, in order, each as the parts of a path to
/// join; the first that exists is the adb used. `None` stands for an unset
/// variable or an unknown directory.
pub fn adb_candidates(
    platform: Platform,
    path_var: Option<&str>,
    android_home: Option<&str>,
    sdk_root: Option<&str>,
    home: Option<&str>,
    local_app_data: Option<&str>,
) -> (r: Vec<Vec<String>>)
    ensures
        candidate_views(r@) == adb_candidates_of(
            platform,
            str_opt(path_var),
            str_opt(android_home),
            str_opt(sdk_root),
            str_opt(home),
            str_opt(local_app_data),
        ),
{
    let mut out: Vec<Vec<String>> = Vec::new();
    let name = adb_binary_name(platform);
    assert(name@ == adb_name(platform));
    match path_var {
        Some(p) => {
            let dirs = split_on(p, path_separator(platform));
            push_in_dirs(&mut out, &dirs, name);
            assert(text::sviews(dirs@) == path_dirs(str_opt(path_var), platform));
        },
        None => {},
    }
    assert(candidate_views(out@) =~= in_dirs(path_dirs(str_opt(path_var), platform), adb_name(platform)));
    push_sdk_candidate(&mut out, android_home, platform);
    push_sdk_candidate(&mut out, sdk_root, platform);
    push_platform_candidates(&mut out, platform, home, local_app_data);
    out
}

/// The download URL of the Android platform-tools for `platform`.
pub fn platform_tools_url(platform: Platform) -> (r: &'static str)
    ensures
        r@ == match platform {
            Platform::Windows => "https://dl.google.com/android/repository/platform-tools-latest-windows.zip"@,
            Platform::MacOs => "https://dl.google.com/android/repository/platform-tools-latest-darwin.zip"@,
            Platform::Other => "https://dl.google.com/android/repository/platform-tools-latest-linux.zip"@,
        },
{
    match platform {
        Platform::Windows => "https://dl.google.com/android/repository/platform-tools-latest-windows.zip",
        Platform::MacOs => "https://dl.google.com/android/repository/platform-tools-latest-darwin.zip",
        Platform::Other => "https://dl.google.com/android/repository/platform-tools-latest-linux.zip",
    }
}

/// An adb path as typed: trimmed, and refused when nothing is left.
pub fn validate_adb_path_input(path: &str) -> (r: Result<String, String>)
    ensures
        match r {
            Ok(p) => p@ == text::trim(path@) && p@.len() > 0,
            Err(e) => text::trim(path@).len() == 0 && e@ == "ADB path cannot be empty"@,
        },
{
    let p = trim_str(path);
    if p.as_str().is_empty() {
        Err(owned("ADB path cannot be empty"))
    } else {
        Ok(p)
    }
}

/// The message of a failed command: its trimmed stderr, or its trimmed stdout
/// when stderr is blank.
pub open spec fn failure_message(stdout: Seq<char>, stderr: Seq<char>) -> Seq<char> {
    if text::trim(stderr).len() == 0 {
        text::trim(stdout)
    } else {
        text::trim(stderr)
    }
}

/// The message of a failed command.
fn failure_message_exec(stdout: &str, stderr: &str) -> (r: String)
    ensures
        r@ == failure_message(stdout@, stderr@),
{
    let e = trim_str(stderr);
    if e.as_str().is_empty() {
        trim_str(stdout)
    } else {
        e
    }
}

/// The verdict on `<path> version`: success, or "ADB validation failed: <message>".
pub fn validation_outcome(success: bool, stdout: &str, stderr: &str) -> (r: Result<(), String>)
    ensures
        match r {
            Ok(_) => success,
            Err(e) => !success && e@ == "ADB validation failed: "@ + failure_message(
                stdout@,
                stderr@,
            ),
        },
{
    if success {
        Ok(())
    } else {
        let mut e = owned("ADB validation failed: ");
        let m = failure_message_exec(stdout, stderr);
        push_all(&mut e, m.as_str());
        Err(e)
    }
}

/// The result of an adb command that ran to its end: its trimmed stdout on
/// success, else "adb exited with status <status>: <message>".
pub fn run_outcome(success: bool, status: &str, stdout: &str, stderr: &str) -> (r: Result<
    String,
    String,
>)
    ensures
        match r {
            Ok(out) => success && out@ == text::trim(stdout@),
            Err(e) => !success && e@ == "adb exited with status "@ + status@ + ": "@
                + failure_message(stdout@, stderr@),
        },
{
    if success {
        Ok(trim_str(stdout))
    } else {
        let mut e = owned("adb exited with status ");
        push_all(&mut e, status);
        push_all(&mut e, ": ");
        let m = failure_message_exec(stdout, stderr);
        push_all(&mut e, m.as_str());
        Err(e)
    }
}

/// The error of an adb command that outlived its time limit.
pub fn run_timeout_message(timeout_secs: u64) -> (r: String)
    ensures
        r@ == "adb command timed out after "@ + text::dec(timeout_secs as nat) + " seconds"@,
{
    let mut e = owned("adb command timed out after ");
    push_decimal(&mut e, timeout_secs);
    push_all(&mut e, " seconds");
    e
}

/// The result of `adb connect <address>` given its output: the output when
/// it reports success, else an error holding the trimmed output, or saying
/// that there was none.
pub fn connect_outcome(address: &str, output: String) -> (r: Result<String, String>)
    ensures
        match r {
            Ok(out) => connect_ok(output@) && out@ == output@,
            Err(e) => !connect_ok(output@) && e@ == (if text::trim(output@).len() == 0 {
                "adb connect produced no output for "@ + address@
            } else {
                text::trim(output@)
            }),
        },
{
    if connect_succeeded(output.as_str()) {
        Ok(output)
    } else {
        let t = trim_str(output.as_str());
        if t.as_str().is_empty() {
            let mut e = owned("adb connect produced no output for ");
            push_all(&mut e, address);
            Err(e)
        } else {
            Err(t)
        }
    }
}

/// The result of `adb pair <address> <code>` given its output, as for connect.
pub fn pair_outcome(address: &str, output: String) -> (r: Result<String, String>)
    ensures
        match r {
            Ok(out) => pair_ok(output@) && out@ == output@,
            Err(e) => !pair_ok(output@) && e@ == (if text::trim(output@).len() == 0 {
                "adb pair produced no output for "@ + address@
            } else {
                text::trim(output@)
            }),
        },
{
    if pair_succeeded(output.as_str()) {
        Ok(output)
    } else {
        let t = trim_str(output.as_str());
        if t.as_str().is_empty() {
            let mut e = owned("adb pair produced no output for ");
            push_all(&mut e, address);
            Err(e)
        } else {
            Err(t)
        }
    }
}

/// The AppleScript that opens Terminal on `<adb> -s <address> shell`, both
/// shell-quoted, the command given to Terminal as a string literal.
pub open spec fn open_shell_script_of(adb_path: Seq<char>, address: Seq<char>) -> Seq<char> {
    "tell application \"Terminal\"\nactivate\ndo script "@ + quote::apple_quoted(
        quote::sh_quoted(adb_path) + " -s "@ + quote::sh_quoted(address) + " shell"@,
    ) + "\nend tell"@
}

/// The AppleScript that opens Terminal on `<adb> -s <address> shell`.
pub fn open_shell_script(adb_path: &str, address: &str) -> (r: String)
    ensures
        r@ == open_shell_script_of(adb_path@, address@),
{
    let mut command = shell_quote(adb_path);
    push_all(&mut command, " -s ");
    let a = shell_quote(address);
    push_all(&mut command, a.as_str());
    push_all(&mut command, " shell");
    let mut script = owned("tell application \"Terminal\"\nactivate\ndo script ");
    let lit = applescript_string_literal(command.as_str());
    push_all(&mut script, lit.as_str());
    push_all(&mut script, "\nend tell");
    script
}

/// The seconds since the Unix epoch, in decimal: the stamp in screenshot names.
pub fn chrono_date_string(secs_since_epoch: u64) -> (r: String)
    ensures
        r@ == text::dec(secs_since_epoch as nat),
{
    decimal(secs_since_epoch)
}

/// The file name a screenshot taken at `secs_since_epoch` is saved under.
pub fn screenshot_filename(secs_since_epoch: u64) -> (r: String)
    ensures
        r@ == "screenshot_"@ + text::dec(secs_since_epoch as nat) + ".png"@,
{
    let mut f = owned("screenshot_");
    let stamp = chrono_date_string(secs_since_epoch);
    push_all(&mut f, stamp.as_str());
    push_all(&mut f, ".png");
    f
}

// ---------------------------------------------------------------------------
// Laws
// ---------------------------------------------------------------------------

/// The device list of any `adb devices` output names each address once.
pub proof fn law_devices_addresses_unique(ls: Seq<Seq<char>>)
    ensures
        maps::keys_unique(devices_of(ls)),
    decreases ls.len(),
{
    if ls.len() > 0 {
        law_devices_addresses_unique(ls.drop_last());
        if let Some(e) = device_entry(ls.last()) {
            maps::lemma_upsert_unique(devices_of(ls.drop_last()), e.0, e.1);
        }
    }
}

/// In `adb devices` output, the last line about an address decides its status:
/// a device line for `a` sets it, and any other line leaves it as it was.
pub proof fn law_devices_last_line_wins(ls: Seq<Seq<char>>, line: Seq<char>, a: Seq<char>)
    ensures
        maps::lookup(devices_of(ls.push(line)), a) == match device_entry(line) {
            Some(e) => if e.0 == a {
                Some(e.1)
            } else {
                maps::lookup(devices_of(ls), a)
            },
            None => maps::lookup(devices_of(ls), a),
        },
{
    assert(ls.push(line).drop_last() =~= ls);
    if let Some(e) = device_entry(line) {
        maps::law_lookup_upsert(devices_of(ls), e.0, e.1, a);
    }
}

/// The properties of any `getprop` output come out sorted by name, each once.
pub proof fn law_props_sorted(ls: Seq<Seq<char>>)
    ensures
        maps::keys_sorted(props_of(ls)),
        maps::keys_unique(props_of(ls)),
    decreases ls.len(),
{
    if ls.len() > 0 {
        law_props_sorted(ls.drop_last());
        if let Some(e) = prop_entry(ls.last()) {
            maps::lemma_sorted_upsert_sorted(props_of(ls.drop_last()), e.0, e.1);
        }
    }
    maps::lemma_sorted_unique(props_of(ls));
}

/// In `getprop` output, the last line about a property decides its value.
pub proof fn law_props_last_line_wins(ls: Seq<Seq<char>>, line: Seq<char>, a: Seq<char>)
    ensures
        maps::lookup(props_of(ls.push(line)), a) == match prop_entry(line) {
            Some(e) => if e.0 == a {
                Some(e.1)
            } else {
                maps::lookup(props_of(ls), a)
            },
            None => maps::lookup(props_of(ls), a),
        },
{
    assert(ls.push(line).drop_last() =~= ls);
    law_props_sorted(ls);
    if let Some(e) = prop_entry(line) {
        maps::law_lookup_sorted_upsert(props_of(ls), e.0, e.1, a);
    }
}

/// A line that is blank or a '*' daemon notice once trimmed.
pub open spec fn is_notice_or_blank(l: Seq<char>) -> bool {
    text::trim(l).len() == 0 || text::trim(l)[0] == '*'
}

/// Output made of notices and blank lines has no result line.
proof fn lemma_no_result_line(n: Seq<Seq<char>>)
    requires
        forall|i: int| 0 <= i < n.len() ==> is_notice_or_blank(#[trigger] n[i]),
    ensures
        last_result_line(n) is None,
    decreases n.len(),
{
    if n.len() > 0 {
        assert(is_notice_or_blank(n[n.len() - 1]));
        lemma_no_result_line(n.drop_last());
    }
}

/// Notices and blank lines in front do not change the result line.
proof fn lemma_result_line_after_notices(n: Seq<Seq<char>>, ls: Seq<Seq<char>>)
    requires
        forall|i: int| 0 <= i < n.len() ==> is_notice_or_blank(#[trigger] n[i]),
    ensures
        last_result_line(n + ls) == last_result_line(ls),
    decreases ls.len(),
{
    if ls.len() == 0 {
        assert(n + ls =~= n);
        lemma_no_result_line(n);
    } else {
        assert((n + ls).drop_last() =~= n + ls.drop_last());
        assert((n + ls).last() == ls.last());
        lemma_result_line_after_notices(n, ls.drop_last());
    }
}

/// Daemon notices and blank lines printed before `adb connect`'s own output
/// do not change whether the connection is reported as made.
pub proof fn law_connect_ignores_leading_notices(notices: Seq<char>, output: Seq<char>)
    requires
        notices.len() > 0,
        notices.last() == '\n',
        forall|i: int|
            0 <= i < text::lines(notices).len() ==> is_notice_or_blank(
                #[trigger] text::lines(notices)[i],
            ),
    ensures
        connect_ok(notices + output) == connect_ok(output),
{
    text::lemma_lines_concat(notices, output);
    lemma_result_line_after_notices(text::lines(notices), text::lines(output));
}

/// The kind a service is given: "pairing" when its type mentions pairing,
/// "connect" otherwise.
pub open spec fn kind_fits_type(s: MdnsServiceView) -> bool {
    s.kind == (if text::contains(s.service_type, "pairing"@) {
        "pairing"@
    } else {
        "connect"@
    })
}

/// Every service read from `adb mdns services` output is a pairing service
/// exactly when its type mentions "pairing", and a connect service otherwise.
pub proof fn law_mdns_kind_follows_type(wl: Seq<Seq<Seq<char>>>, flags: Seq<Seq<bool>>)
    ensures
        forall|i: int|
            0 <= i < services_of(wl, flags).len() ==> kind_fits_type(
                #[trigger] services_of(wl, flags)[i],
            ),
    decreases wl.len(),
{
    if wl.len() > 0 && flags.len() > 0 {
        let m = services_of(wl.drop_last(), flags.drop_last());
        law_mdns_kind_follows_type(wl.drop_last(), flags.drop_last());
        match service_from(wl.last(), flags.last()) {
            Some(s) => {
                assert(services_of(wl, flags) == m.push(s));
                assert(kind_fits_type(s));
                assert forall|i: int| 0 <= i < services_of(wl, flags).len() implies kind_fits_type(
                    #[trigger] services_of(wl, flags)[i],
                ) by {
                    if i < m.len() {
                        assert(services_of(wl, flags)[i] == m[i]);
                    }
                }
            },
            None => {
                assert(services_of(wl, flags) == m);
            },
        }
    }
}

/// The address flags of candidate lines when `is_addr` tells which words are
/// socket addresses.
pub open spec fn addr_flags_of(wl: Seq<Seq<Seq<char>>>, is_addr: spec_fn(Seq<char>) -> bool) -> Seq<
    Seq<bool>,
> {
    wl.map_values(|l: Seq<Seq<char>>| l.map_values(is_addr))
}

/// The services of `adb mdns services` output, where `is_addr` tells which
/// words are socket addresses: `mdns_word_lines` followed by
/// `mdns_services_from_words` with the flags `is_addr` gives.
pub open spec fn mdns_services_of(output: Seq<char>, is_addr: spec_fn(Seq<char>) -> bool) -> Seq<
    MdnsServiceView,
> {
    let wl = mdns_word_lines_of(text::lines(output));
    services_of(wl, addr_flags_of(wl, is_addr))
}

/// The candidate lines of two runs of lines are those of each, in order.
proof fn lemma_word_lines_concat(x: Seq<Seq<char>>, y: Seq<Seq<char>>)
    ensures
        mdns_word_lines_of(x + y) == mdns_word_lines_of(x) + mdns_word_lines_of(y),
    decreases y.len(),
{
    if y.len() == 0 {
        assert(x + y =~= x);
        assert(mdns_word_lines_of(x) + mdns_word_lines_of(y) =~= mdns_word_lines_of(x));
    } else {
        lemma_word_lines_concat(x, y.drop_last());
        assert((x + y).drop_last() =~= x + y.drop_last());
        assert((x + y).last() == y.last());
        let m = mdns_word_lines_of(x) + mdns_word_lines_of(y.drop_last());
        let l = text::trim(y.last());
        if !(l.len() == 0 || mdns_preamble(l)) {
            assert(m.push(text::words(l)) =~= mdns_word_lines_of(x) + mdns_word_lines_of(
                y.drop_last(),
            ).push(text::words(l)));
        }
    }
}

/// The services of two runs of candidate lines are those of each, in order.
proof fn lemma_services_concat(
    w1: Seq<Seq<Seq<char>>>,
    g1: Seq<Seq<bool>>,
    w2: Seq<Seq<Seq<char>>>,
    g2: Seq<Seq<bool>>,
)
    requires
        w1.len() == g1.len(),
        w2.len() == g2.len(),
    ensures
        services_of(w1 + w2, g1 + g2) == services_of(w1, g1) + services_of(w2, g2),
    decreases w2.len(),
{
    if w2.len() == 0 {
        assert(w1 + w2 =~= w1);
        assert(g1 + g2 =~= g1);
        assert(services_of(w1, g1) + services_of(w2, g2) =~= services_of(w1, g1));
    } else {
        lemma_services_concat(w1, g1, w2.drop_last(), g2.drop_last());
        assert((w1 + w2).drop_last() =~= w1 + w2.drop_last());
        assert((g1 + g2).drop_last() =~= g1 + g2.drop_last());
        assert((w1 + w2).last() == w2.last());
        assert((g1 + g2).last() == g2.last());
        match service_from(w2.last(), g2.last()) {
            Some(sv) => {
                assert(services_of(w1, g1) + services_of(w2.drop_last(), g2.drop_last()).push(sv)
                    =~= (services_of(w1, g1) + services_of(w2.drop_last(), g2.drop_last())).push(
                    sv,
                ));
            },
            None => {},
        }
    }
}

/// Leading whitespace trimmed off a text that ends in whitespace.
proof fn lemma_trim_start_ws_last(s: Seq<char>)
    requires
        s.len() > 0,
        text::is_ws(s.last()),
    ensures
        text::trim_start(s) == (if text::trim_start(s.drop_last()).len() == 0 {
            Seq::<char>::empty()
        } else {
            text::trim_start(s.drop_last()).push(s.last())
        }),
    decreases s.len(),
{
    if text::is_ws(s[0]) {
        if s.len() == 1 {
            assert(s.drop_first() =~= Seq::<char>::empty());
            assert(s.drop_last() =~= Seq::<char>::empty());
        } else {
            let d = s.drop_first();
            assert(d.last() == s.last());
            lemma_trim_start_ws_last(d);
            assert(d.drop_last() =~= s.drop_last().drop_first());
            assert(s.drop_last()[0] == s[0]);
        }
    } else {
        assert(s.drop_last()[0] == s[0]);
        assert(s.drop_last().push(s.last()) =~= s);
    }
}

/// Whitespace at the end does not change what trimming gives.
proof fn lemma_trim_ws_last(s: Seq<char>)
    requires
        s.len() > 0,
        text::is_ws(s.last()),
    ensures
        text::trim(s) == text::trim(s.drop_last()),
{
    lemma_trim_start_ws_last(s);
    let t = text::trim_start(s.drop_last());
    if t.len() > 0 {
        assert(t.push(s.last()).drop_last() =~= t);
    }
}

/// Ending a text with a line break changes none of its candidate lines.
proof fn lemma_word_lines_newline(a: Seq<char>)
    ensures
        mdns_word_lines_of(text::lines(a + seq!['\n'])) == mdns_word_lines_of(text::lines(a)),
{
    let p = a + seq!['\n'];
    assert(p.drop_last() =~= a);
    let (done, cur) = text::line_state(a);
    assert(text::lines(p) == done.push(text::strip_cr(cur)));
    assert(done.push(text::strip_cr(cur)).drop_last() =~= done);
    if cur.len() > 0 {
        assert(done.push(cur).drop_last() =~= done);
        if cur.last() == '\r' {
            lemma_trim_ws_last(cur);
        }
        assert(text::trim(text::strip_cr(cur)) == text::trim(cur));
    } else {
        assert(text::strip_cr(cur) =~= Seq::<char>::empty());
        assert(text::trim(Seq::<char>::empty()) =~= Seq::<char>::empty());
    }
}

/// Output made of two parts joined by a line break lists the services of the
/// first part, then those of the second.
pub proof fn law_mdns_services_concat(
    a: Seq<char>,
    b: Seq<char>,
    is_addr: spec_fn(Seq<char>) -> bool,
)
    ensures
        mdns_services_of(a + seq!['\n'] + b, is_addr) == mdns_services_of(a, is_addr)
            + mdns_services_of(b, is_addr),
{
    let p = a + seq!['\n'];
    text::lemma_lines_concat(p, b);
    lemma_word_lines_concat(text::lines(p), text::lines(b));
    lemma_word_lines_newline(a);
    let wa = mdns_word_lines_of(text::lines(a));
    let wb = mdns_word_lines_of(text::lines(b));
    let w = mdns_word_lines_of(text::lines(p + b));
    assert(w == wa + wb);
    assert(addr_flags_of(wa + wb, is_addr) =~= addr_flags_of(wa, is_addr) + addr_flags_of(
        wb,
        is_addr,
    ));
    lemma_services_concat(wa, addr_flags_of(wa, is_addr), wb, addr_flags_of(wb, is_addr));
}

/// adb is first looked for in each directory of `PATH`, in order, under the
/// platform's file name ("adb.exe" on Windows, "adb" elsewhere); next in the
/// SDK of `ANDROID_HOME`, then of `ANDROID_SDK_ROOT`, under `platform-tools`.
pub proof fn law_adb_searched_on_path_first(
    platform: Platform,
    path_var: Option<Seq<char>>,
    android_home: Option<Seq<char>>,
    sdk_root: Option<Seq<char>>,
    home: Option<Seq<char>>,
    local_app_data: Option<Seq<char>>,
)
    ensures
        ({
            let c = adb_candidates_of(platform, path_var, android_home, sdk_root, home, local_app_data);
            let name = if platform == Platform::Windows {
                "adb.exe"@
            } else {
                "adb"@
            };
            let dirs = match path_var {
                Some(p) => text::split(p, if platform == Platform::Windows { ';' } else { ':' }),
                None => Seq::<Seq<char>>::empty(),
            };
            &&& forall|i: int| 0 <= i < dirs.len() ==> #[trigger] c[i] == seq![dirs[i], name]
            &&& android_home matches Some(r) ==> c[dirs.len() as int] == seq![r, "platform-tools"@, name]
            &&& sdk_root matches Some(r) ==> c[dirs.len() + (if android_home is Some { 1int } else { 0int })]
                == seq![r, "platform-tools"@, name]
        }),
{
    let c = adb_candidates_of(platform, path_var, android_home, sdk_root, home, local_app_data);
    let dirs = path_dirs(path_var, platform);
    let first = in_dirs(dirs, adb_name(platform));
    let s1 = sdk_candidate(android_home, platform);
    let s2 = sdk_candidate(sdk_root, platform);
    let rest = platform_adb_candidates(platform, home, local_app_data);
    assert(c =~= first + s1 + s2 + rest);
    assert forall|i: int| 0 <= i < dirs.len() implies #[trigger] c[i] == seq![dirs[i], adb_name(platform)] by {
        assert(c[i] == first[i]);
    }
    if android_home is Some {
        assert(c[dirs.len() as int] == s1[0]);
    }
    if sdk_root is Some {
        assert(c[(dirs.len() + s1.len()) as int] == s2[0]);
    }
}

} // verus!
