//! The local network scan: which hosts are probed, and the progress reported
//! as their answers come in.
use vstd::prelude::*;
use crate::text::{self, owned, push_char, push_decimal};

verus! {

/// How many hosts a scan probes: every host of the /24 network except the
/// network and broadcast addresses.
pub const SCAN_TOTAL: u32 = 254;

/// A host that accepted a connection on the scanned port.
#[derive(Clone, Debug)]
pub struct ScanResult {
    pub ip: String,
    pub port: u16,
}

/// The progress of a scan: how many hosts answered or timed out so far, and
/// the open ones found.
#[derive(Clone, Debug)]
pub struct ScanProgress {
    pub scanned: u32,
    pub total: u32,
    pub found: Vec<ScanResult>,
}

/// The address of this machine, as the scan needs it.
#[derive(Clone, Copy, Debug, PartialEq, Eq, Structural)]
pub enum LocalIp {
    V4(u8, u8, u8, u8),
    V6,
}

/// The model of a found host.
pub open spec fn result_view(r: ScanResult) -> (Seq<char>, u16) {
    (r.ip@, r.port)
}

/// The models of found hosts.
pub open spec fn result_views(v: Seq<ScanResult>) -> Seq<(Seq<char>, u16)> {
    v.map_values(|r: ScanResult| result_view(r))
}

/// The dotted decimal form of an IPv4 address.
pub open spec fn ipv4_text(a: u8, b: u8, c: u8, d: u8) -> Seq<char> {
    text::dec(a as nat) + seq!['.'] + text::dec(b as nat) + seq!['.'] + text::dec(c as nat)
        + seq!['.'] + text::dec(d as nat)
}

/// The dotted decimal form of an IPv4 address.
pub fn ipv4_string(a: u8, b: u8, c: u8, d: u8) -> (r: String)
    ensures
        r@ == ipv4_text(a, b, c, d),
{
    let mut s = String::new();
    push_decimal(&mut s, a as u64);
    push_char(&mut s, '.');
    push_decimal(&mut s, b as u64);
    push_char(&mut s, '.');
    push_decimal(&mut s, c as u64);
    push_char(&mut s, '.');
    push_decimal(&mut s, d as u64);
    assert(s@ =~= ipv4_text(a, b, c, d));
    s
}

/// The first three octets of the network to scan: that of this machine's IPv4
/// address. IPv6 networks are not scanned.
pub fn subnet_prefix(local_ip: LocalIp) -> (r: Result<(u8, u8, u8), String>)
    ensures
        match local_ip {
            LocalIp::V4(a, b, c, _) => r == Ok::<(u8, u8, u8), String>((a, b, c)),
            LocalIp::V6 => r is Err && r->Err_0@ == "IPv6 subnet scanning is not supported"@,
        },
{
    match local_ip {
        LocalIp::V4(a, b, c, _) => Ok((a, b, c)),
        LocalIp::V6 => Err(owned("IPv6 subnet scanning is not supported")),
    }
}

/// The hosts a scan probes, in order: 1 to 254 of the /24 network.
pub fn scan_hosts() -> (r: Vec<u8>)
    ensures
        r@.len() == SCAN_TOTAL,
        forall|i: int| 0 <= i < r@.len() ==> r@[i] == i + 1,
{
    let mut v: Vec<u8> = Vec::new();
    let mut h: u8 = 1;
    while h <= 254
        invariant
            1 <= h <= 255,
            v@.len() == h - 1,
            forall|i: int| 0 <= i < v@.len() ==> v@[i] == i + 1,
        decreases 255 - h,
    {
        v.push(h);
        if h == 254 {
            assert(v@.len() == SCAN_TOTAL);
            return v;
        }
        h = h + 1;
    }
    v
}

/// The hosts that answered, in the order their answers came.
pub open spec fn hosts_of(events: Seq<(u8, bool)>) -> Seq<int> {
    events.map_values(|e: (u8, bool)| e.0 as int)
}

/// Each host of the network answered at most once.
pub open spec fn valid_answers(events: Seq<(u8, bool)>) -> bool {
    &&& hosts_of(events).no_duplicates()
    &&& forall|i: int| 0 <= i < events.len() ==> 1 <= (#[trigger] events[i]).0 <= 254
}

/// The open hosts among the answers `events` (host, open) of a scan of the
/// network `prefix` on `port`, in the order their answers came.
pub open spec fn found_after(prefix: (u8, u8, u8), port: u16, events: Seq<(u8, bool)>) -> Seq<
    (Seq<char>, u16),
>
    decreases events.len(),
{
    if events.len() == 0 {
        Seq::empty()
    } else {
        let f = found_after(prefix, port, events.drop_last());
        let e = events.last();
        if e.1 {
            f.push((ipv4_text(prefix.0, prefix.1, prefix.2, e.0), port))
        } else {
            f
        }
    }
}

/// No more answers than hosts: at most 254, and 254 when every host answered.
pub proof fn lemma_answers_bounded(events: Seq<(u8, bool)>)
    requires
        valid_answers(events),
    ensures
        events.len() <= SCAN_TOTAL,
        (forall|h: int| 1 <= h <= 254 ==> hosts_of(events).contains(h)) ==> events.len()
            == SCAN_TOTAL,
{
    broadcast use vstd::seq_lib::group_seq_properties, vstd::set::group_set_axioms;
    let hs = hosts_of(events);
    let all = vstd::set_lib::set_int_range(1, 255);
    hs.unique_seq_to_set();
    vstd::set_lib::lemma_int_range(1, 255);
    assert(hs.to_set().subset_of(all)) by {
        assert forall|x: int| hs.to_set().contains(x) implies all.contains(x) by {
            assert(hs.contains(x));
            let i = choose|i: int| 0 <= i < hs.len() && hs[i] == x;
            assert(1 <= events[i].0 <= 254);
        }
    }
    vstd::set_lib::lemma_len_subset(hs.to_set(), all);
    if forall|h: int| 1 <= h <= 254 ==> hs.contains(h) {
        assert(all.subset_of(hs.to_set())) by {
            assert forall|x: int| all.contains(x) implies hs.to_set().contains(x) by {
                assert(hs.contains(x));
            }
        }
        vstd::set_lib::lemma_len_subset(all, hs.to_set());
    }
}

/// The state of a running scan of the network `prefix` on `port`: the
/// answers so far, each host with whether it was open.
pub struct ScanState {
    prefix: (u8, u8, u8),
    port: u16,
    answers: Vec<(u8, bool)>,
}

/// A copy of the found hosts.
fn found_results(prefix: (u8, u8, u8), port: u16, answers: &Vec<(u8, bool)>) -> (r: Vec<
    ScanResult,
>)
    ensures
        result_views(r@) == found_after(prefix, port, answers@),
{
    let mut out: Vec<ScanResult> = Vec::new();
    let mut i: usize = 0;
    while i < answers.len()
        invariant
            i <= answers@.len(),
            result_views(out@) == found_after(prefix, port, answers@.take(i as int)),
        decreases answers@.len() - i,
    {
        let (host, open) = answers[i];
        assert(answers@.take(i + 1).drop_last() =~= answers@.take(i as int));
        assert(answers@.take(i + 1).last() == answers@[i as int]);
        if open {
            let item = ScanResult { ip: ipv4_string(prefix.0, prefix.1, prefix.2, host), port };
            let ghost before = out@;
            out.push(item);
            assert(result_views(out@) =~= result_views(before).push(result_view(item)));
        }
        i = i + 1;
    }
    assert(answers@.take(answers@.len() as int) =~= answers@);
    out
}

impl ScanState {
    /// Each host answers at most once.
    #[verifier::type_invariant]
    spec fn hosts_answer_once(&self) -> bool {
        valid_answers(self.answers@)
    }

    /// The network scanned.
    pub closed spec fn prefix(&self) -> (u8, u8, u8) {
        self.prefix
    }

    /// The port probed.
    pub closed spec fn port(&self) -> u16 {
        self.port
    }

    /// The answers so far, in order: each host with whether it was open.
    pub closed spec fn answers(&self) -> Seq<(u8, bool)> {
        self.answers@
    }

    /// A scan of the network `prefix` on `port` that has not heard from any
    /// host yet.
    pub fn new(prefix: (u8, u8, u8), port: u16) -> (r: Self)
        ensures
            r.prefix() == prefix,
            r.port() == port,
            r.answers() == Seq::<(u8, bool)>::empty(),
    {
        let r = ScanState { prefix, port, answers: Vec::new() };
        assert(hosts_of(r.answers@) =~= Seq::<int>::empty());
        r
    }

    /// Whether `host` has answered.
    pub fn has_answered(&self, host: u8) -> (r: bool)
        ensures
            r == hosts_of(self.answers()).contains(host as int),
    {
        let mut i: usize = 0;
        while i < self.answers.len()
            invariant
                i <= self.answers@.len(),
                forall|j: int| 0 <= j < i ==> hosts_of(self.answers@)[j] != host as int,
            decreases self.answers@.len() - i,
        {
            if self.answers[i].0 == host {
                assert(hosts_of(self.answers@)[i as int] == host as int);
                return true;
            }
            i = i + 1;
        }
        false
    }

    /// How many hosts have answered.
    pub fn scanned(&self) -> (r: u32)
        ensures
            r == self.answers().len(),
    {
        proof {
            use_type_invariant(self);
            lemma_answers_bounded(self.answers@);
        }
        self.answers.len() as u32
    }

    /// Records the answer of `host`, one of the hosts of the network that has
    /// not answered yet: open or not. Returns the progress to report.
    pub fn record(&mut self, host: u8, open: bool) -> (r: ScanProgress)
        requires
            1 <= host <= 254,
            !hosts_of(old(self).answers()).contains(host as int),
        ensures
            final(self).prefix() == old(self).prefix(),
            final(self).port() == old(self).port(),
            final(self).answers() == old(self).answers().push((host, open)),
            r.scanned == final(self).answers().len(),
            r.total == SCAN_TOTAL,
            result_views(r.found@) == found_after(
                final(self).prefix(),
                final(self).port(),
                final(self).answers(),
            ),
    {
        proof {
            use_type_invariant(&*self);
        }
        let ghost es = self.answers@;
        let ghost ne = es.push((host, open));
        assert(hosts_of(ne) =~= hosts_of(es).push(host as int));
        assert(valid_answers(ne)) by {
            assert forall|i: int, j: int|
                0 <= i < hosts_of(ne).len() && 0 <= j < hosts_of(ne).len() && i != j implies hosts_of(
                ne,
            )[i] != hosts_of(ne)[j] by {
                if i < es.len() && j < es.len() {
                    assert(hosts_of(ne)[i] == hosts_of(es)[i]);
                    assert(hosts_of(ne)[j] == hosts_of(es)[j]);
                } else if i < es.len() {
                    assert(hosts_of(ne)[i] == hosts_of(es)[i]);
                } else {
                    assert(hosts_of(ne)[j] == hosts_of(es)[j]);
                }
            }
            assert forall|i: int| 0 <= i < ne.len() implies 1 <= (#[trigger] ne[i]).0 <= 254 by {
                if i < es.len() {
                    assert(ne[i] == es[i]);
                }
            }
        }
        let mut answers: Vec<(u8, bool)> = Vec::new();
        assert(hosts_of(answers@) =~= Seq::<int>::empty());
        std::mem::swap(&mut answers, &mut self.answers);
        answers.push((host, open));
        assert(answers@ == ne);
        self.answers = answers;
        let found = found_results(self.prefix, self.port, &self.answers);
        let scanned = self.scanned();
        ScanProgress { scanned, total: SCAN_TOTAL, found }
    }

    /// The open hosts found, in the order their answers came.
    pub fn results(&self) -> (r: Vec<ScanResult>)
        ensures
            result_views(r@) == found_after(self.prefix(), self.port(), self.answers()),
    {
        found_results(self.prefix, self.port, &self.answers)
    }
}

/// Over a whole scan: the progress reported after the `k`-th answer counts
/// `k` answers and lists a prefix of the hosts found in the end, of at most
/// `k` hosts; there are at most 254 answers, and 254 once every host has
/// answered, when the last report lists every host found.
pub proof fn law_scan_progress(prefix: (u8, u8, u8), port: u16, events: Seq<(u8, bool)>)
    requires
        valid_answers(events),
    ensures
        events.len() <= SCAN_TOTAL,
        (forall|h: int| 1 <= h <= 254 ==> hosts_of(events).contains(h)) ==> events.len()
            == SCAN_TOTAL,
        forall|k: int|
            0 <= k <= events.len() ==> {
                let f = #[trigger] found_after(prefix, port, events.take(k));
                &&& f.len() <= k
                &&& found_after(prefix, port, events).take(f.len() as int) == f
            },
{
    lemma_answers_bounded(events);
    lemma_found_prefixes(prefix, port, events);
}

/// Each earlier list of found hosts is a prefix of the later ones.
proof fn lemma_found_prefixes(prefix: (u8, u8, u8), port: u16, events: Seq<(u8, bool)>)
    ensures
        forall|k: int|
            0 <= k <= events.len() ==> {
                let f = #[trigger] found_after(prefix, port, events.take(k));
                &&& f.len() <= k
                &&& f.len() <= found_after(prefix, port, events).len()
                &&& found_after(prefix, port, events).take(f.len() as int) == f
            },
    decreases events.len(),
{
    let all = found_after(prefix, port, events);
    if events.len() == 0 {
        assert forall|k: int| 0 <= k <= events.len() implies {
            let f = #[trigger] found_after(prefix, port, events.take(k));
            &&& f.len() <= k
            &&& f.len() <= all.len()
            &&& all.take(f.len() as int) == f
        } by {
            assert(events.take(k) =~= events);
            assert(all.take(0) =~= all);
        }
    } else {
        let t = events.drop_last();
        lemma_found_prefixes(prefix, port, t);
        let ft = found_after(prefix, port, t);
        assert(all.take(ft.len() as int) =~= ft);
        assert forall|k: int| 0 <= k <= events.len() implies {
            let f = #[trigger] found_after(prefix, port, events.take(k));
            &&& f.len() <= k
            &&& f.len() <= all.len()
            &&& all.take(f.len() as int) == f
        } by {
            if k == events.len() {
                assert(events.take(k) =~= events);
                assert(all.take(all.len() as int) =~= all);
                assert(t.take(t.len() as int) =~= t);
            } else {
                assert(events.take(k) =~= t.take(k));
                let f = found_after(prefix, port, t.take(k));
                assert(ft.take(f.len() as int) == f);
                assert(f.len() <= ft.len());
                assert(all.len() >= ft.len());
                assert(all.take(f.len() as int) =~= ft.take(f.len() as int));
            }
        }
        assert(found_after(prefix, port, events).len() <= events.len()) by {
            assert(events.take(events.len() - 1) =~= t);
        }
    }
}

} // verus!
