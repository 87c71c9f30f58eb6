//! The bootstrap resolver: reads the seed list and splits its endpoints into
//! routing-table entries, whose peer is known, and addresses to dial.
use vstd::prelude::*;
use libp2p::multiaddr::Protocol;
use libp2p::{Multiaddr, PeerId};
use crate::peer_dht::{kad_add_address, kad_bootstrap, kad_has_peers, kad_serves, KadBehaviour, RoutingOutcome};

verus! {

/// libp2p's network address, carried as an opaque value.
#[verifier::external_type_specification]
#[verifier::external_body]
pub struct ExMultiaddr(Multiaddr);

/// Why a text is no network address.
#[verifier::external_type_specification]
#[verifier::external_body]
pub struct ExMultiaddrError(libp2p::multiaddr::Error);

/// The characters with the Unicode White_Space property.
pub open spec fn is_white_space(c: char) -> bool {
    let u = c as u32;
    (0x9 <= u && u <= 0xd) || u == 0x20 || u == 0x85 || u == 0xa0 || u == 0x1680 || (0x2000 <= u
        && u <= 0x200a) || u == 0x2028 || u == 0x2029 || u == 0x202f || u == 0x205f || u == 0x3000
}

/// Whether `c` has the White_Space property, as `char::is_whitespace` documents it.
fn char_is_white_space(c: char) -> (r: bool)
    ensures
        r == is_white_space(c),
{
    let u = c as u32;
    (0x9 <= u && u <= 0xd) || u == 0x20 || u == 0x85 || u == 0xa0 || u == 0x1680 || (0x2000 <= u
        && u <= 0x200a) || u == 0x2028 || u == 0x2029 || u == 0x202f || u == 0x205f || u == 0x3000
}

/// `s` without its leading white space.
pub open spec fn trim_start(s: Seq<char>) -> Seq<char>
    decreases s.len(),
{
    if s.len() > 0 && is_white_space(s[0]) {
        trim_start(s.drop_first())
    } else {
        s
    }
}

/// `s` without its trailing white space.
pub open spec fn trim_end(s: Seq<char>) -> Seq<char>
    decreases s.len(),
{
    if s.len() > 0 && is_white_space(s.last()) {
        trim_end(s.drop_last())
    } else {
        s
    }
}

/// `s` without white space at either end.
pub open spec fn trim(s: Seq<char>) -> Seq<char> {
    trim_end(trim_start(s))
}

/// Adds one piece of the list: trimmed, and only when something is left.
pub open spec fn add_entry(entries: Seq<Seq<char>>, piece: Seq<char>) -> Seq<Seq<char>> {
    if trim(piece).len() > 0 {
        entries.push(trim(piece))
    } else {
        entries
    }
}

/// The entries of the comma-separated list `s` that end before position `i`,
/// with the position where the piece under way starts.
pub open spec fn entries_upto(s: Seq<char>, i: int) -> (Seq<Seq<char>>, int)
    decreases i,
{
    if i <= 0 {
        (seq![], 0)
    } else {
        let prev = entries_upto(s, i - 1);
        if s[i - 1] == ',' {
            (add_entry(prev.0, s.subrange(prev.1, i - 1)), i)
        } else {
            prev
        }
    }
}

/// The entries of a comma-separated seed list: each piece trimmed, empty ones left out.
pub open spec fn seed_entries_of(s: Seq<char>) -> Seq<Seq<char>> {
    let last = entries_upto(s, s.len() as int);
    add_entry(last.0, s.subrange(last.1, s.len() as int))
}

/// The piece `s[from..to]` without white space at either end.
fn trimmed_piece(s: &str, from: usize, to: usize) -> (r: String)
    requires
        from <= to <= s@.len(),
    ensures
        r@ == trim(s@.subrange(from as int, to as int)),
{
    let ghost piece = s@.subrange(from as int, to as int);
    let mut lo = from;
    while lo < to && char_is_white_space(s.get_char(lo))
        invariant
            from <= lo <= to <= s@.len(),
            piece == s@.subrange(from as int, to as int),
            trim_start(piece) == trim_start(s@.subrange(lo as int, to as int)),
        decreases to - lo,
    {
        assert(s@.subrange(lo as int, to as int).drop_first() =~= s@.subrange(
            lo + 1,
            to as int,
        ));
        lo = lo + 1;
    }
    assert(trim_start(piece) == s@.subrange(lo as int, to as int));
    let mut hi = to;
    while hi > lo && char_is_white_space(s.get_char(hi - 1))
        invariant
            from <= lo <= hi <= to <= s@.len(),
            trim_start(piece) == s@.subrange(lo as int, to as int),
            trim(piece) == trim_end(s@.subrange(lo as int, hi as int)),
        decreases hi - lo,
    {
        assert(s@.subrange(lo as int, hi as int).drop_last() =~= s@.subrange(
            lo as int,
            hi - 1,
        ));
        hi = hi - 1;
    }
    s.substring_char(lo, hi).to_owned()
}

/// Appends the trimmed piece `s[from..to]` to `entries` unless it is empty.
fn push_entry(entries: &mut Vec<String>, s: &str, from: usize, to: usize)
    requires
        from <= to <= s@.len(),
    ensures
        final(entries)@.map_values(|e: String| e@) == add_entry(
            old(entries)@.map_values(|e: String| e@),
            s@.subrange(from as int, to as int),
        ),
{
    let t = trimmed_piece(s, from, to);
    if t.unicode_len() > 0 {
        let ghost t_view = t@;
        entries.push(t);
        assert(final(entries)@.map_values(|e: String| e@) =~= old(entries)@.map_values(
            |e: String| e@,
        ).push(t_view));
    }
}

/// The entries of a comma-separated seed list, in order: each piece with white
/// space trimmed from both ends, empty pieces left out.
pub fn seed_entries(list: &str) -> (r: Vec<String>)
    ensures
        r@.map_values(|e: String| e@) == seed_entries_of(list@),
{
    let n = list.unicode_len();
    let mut entries: Vec<String> = Vec::new();
    let mut start: usize = 0;
    let mut i: usize = 0;
    while i < n
        invariant
            n == list@.len(),
            0 <= start <= i <= n,
            entries@.map_values(|e: String| e@) == entries_upto(list@, i as int).0,
            start == entries_upto(list@, i as int).1,
        decreases n - i,
    {
        if list.get_char(i) == ',' {
            push_entry(&mut entries, list, start, i);
            start = i + 1;
        }
        i = i + 1;
    }
    push_entry(&mut entries, list, start, n);
    entries
}

/// Whether `Multiaddr::from_str` accepts `s`.
pub uninterp spec fn multiaddr_parses(s: Seq<char>) -> bool;

/// For each component of the address that `s` parses to, in order, whether it is
/// a `/p2p/<peer id>` component.
pub uninterp spec fn p2p_flags(s: Seq<char>) -> Seq<bool>;

/// Relies on Multiaddr::from_str, whose success depends on the text alone (a
/// non-empty address starts with `/`), and on Multiaddr::iter: the peer id of
/// each component that is `/p2p/<peer id>`, in order.
#[verifier::external_body]
fn parse_seed_addr(s: &str) -> (r: Result<(Multiaddr, Vec<Option<PeerId>>), libp2p::multiaddr::Error>)
    ensures
        r.is_ok() == multiaddr_parses(s@),
        r.is_ok() && s@.len() > 0 ==> s@[0] == '/',
        r matches Ok(p) ==> p.1@.map_values(|o: Option<PeerId>| o is Some) == p2p_flags(s@),
{
    let addr = s.parse::<Multiaddr>()?;
    let components = addr.iter().map(
        |p| match p {
            Protocol::P2p(id) => Some(id),
            _ => None,
        },
    ).collect();
    Ok((addr, components))
}

/// Whether a seed entry names its peer.
pub open spec fn names_peer(e: Seq<char>) -> bool {
    p2p_flags(e).contains(true)
}

/// The last peer id among the components, if any.
pub open spec fn last_peer(components: Seq<Option<PeerId>>) -> Option<PeerId>
    decreases components.len(),
{
    if components.len() == 0 {
        None
    } else if components.last() is Some {
        components.last()
    } else {
        last_peer(components.drop_last())
    }
}

/// The peer id that an address embeds: the last `/p2p/` component wins.
pub fn embedded_peer(components: &Vec<Option<PeerId>>) -> (r: Option<PeerId>)
    ensures
        r == last_peer(components@),
{
    let mut found: Option<PeerId> = None;
    let mut i: usize = 0;
    while i < components.len()
        invariant
            i <= components@.len(),
            found == last_peer(components@.subrange(0, i as int)),
        decreases components@.len() - i,
    {
        assert(components@.subrange(0, i + 1).drop_last() =~= components@.subrange(0, i as int));
        match components[i] {
            Some(id) => {
                found = Some(id);
            },
            None => {},
        }
        i = i + 1;
    }
    assert(components@.subrange(0, components@.len() as int) =~= components@);
    found
}

/// What to do with one seed endpoint.
pub enum SeedTarget {
    /// The endpoint names its peer: insert it straight into the routing table.
    Direct(PeerId, Multiaddr),
    /// The endpoint names no peer: dial it, identify tells who answers.
    Dial(Multiaddr),
}

/// Routes a parsed endpoint by the peer id among its components.
pub fn classify_seed(addr: Multiaddr, components: &Vec<Option<PeerId>>) -> (r: SeedTarget)
    ensures
        match last_peer(components@) {
            Some(p) => r == SeedTarget::Direct(p, addr),
            None => r == SeedTarget::Dial(addr),
        },
{
    match embedded_peer(components) {
        Some(p) => SeedTarget::Direct(p, addr),
        None => SeedTarget::Dial(addr),
    }
}

/// The outcome of resolving a seed list.
pub struct BootstrapPlan {
    /// Endpoints with a known peer, for the routing table.
    pub direct: Vec<(PeerId, Multiaddr)>,
    /// The seed entry that each endpoint of `direct` was read from.
    pub direct_sources: Vec<String>,
    /// Endpoints without a known peer, to dial.
    pub dial: Vec<Multiaddr>,
    /// The seed entry that each endpoint of `dial` was read from.
    pub dial_sources: Vec<String>,
    /// Entries that are no valid address; reported and skipped.
    pub invalid: Vec<String>,
}

/// The entries that do not parse as an address, in order.
pub open spec fn invalid_entries(entries: Seq<Seq<char>>) -> Seq<Seq<char>> {
    entries.filter(|e: Seq<char>| !multiaddr_parses(e))
}

/// The entries that parse and name their peer.
pub open spec fn direct_entries(entries: Seq<Seq<char>>) -> Seq<Seq<char>> {
    entries.filter(|e: Seq<char>| multiaddr_parses(e) && names_peer(e))
}

/// The entries that parse and name no peer.
pub open spec fn dial_entries(entries: Seq<Seq<char>>) -> Seq<Seq<char>> {
    entries.filter(|e: Seq<char>| multiaddr_parses(e) && !names_peer(e))
}

proof fn lemma_last_peer_some(components: Seq<Option<PeerId>>)
    ensures
        last_peer(components) is Some <==> components.map_values(|o: Option<PeerId>| o is Some).contains(
            true,
        ),
    decreases components.len(),
{
    let flags = components.map_values(|o: Option<PeerId>| o is Some);
    if components.len() > 0 {
        let rest = components.drop_last();
        lemma_last_peer_some(rest);
        let rflags = rest.map_values(|o: Option<PeerId>| o is Some);
        assert(flags =~= rflags.push(components.last() is Some));
        if rflags.contains(true) {
            let i = choose|i: int| 0 <= i < rflags.len() && rflags[i] == true;
            assert(flags[i] == true);
        }
        if flags.contains(true) && !(components.last() is Some) {
            let i = choose|i: int| 0 <= i < flags.len() && flags[i] == true;
            assert(rflags[i] == true);
        }
        if components.last() is Some {
            assert(flags[flags.len() - 1] == true);
        }
    } else {
        assert(!flags.contains(true));
    }
}

/// Resolves the entries of a seed list, in order: each entry that names its peer
/// becomes one routing-table entry, each other one that parses one dial target,
/// and the rest are set aside.
pub fn resolve_entries(entries: &Vec<String>) -> (r: BootstrapPlan)
    ensures
        r.invalid@.map_values(|e: String| e@) == invalid_entries(
            entries@.map_values(|e: String| e@),
        ),
        r.direct_sources@.map_values(|e: String| e@) == direct_entries(
            entries@.map_values(|e: String| e@),
        ),
        r.dial_sources@.map_values(|e: String| e@) == dial_entries(
            entries@.map_values(|e: String| e@),
        ),
        r.direct@.len() == r.direct_sources@.len(),
        r.dial@.len() == r.dial_sources@.len(),
{
    let mut plan = BootstrapPlan {
        direct: Vec::new(),
        direct_sources: Vec::new(),
        dial: Vec::new(),
        dial_sources: Vec::new(),
        invalid: Vec::new(),
    };
    let ghost views = entries@.map_values(|e: String| e@);
    let mut i: usize = 0;
    while i < entries.len()
        invariant
            i <= entries@.len(),
            views == entries@.map_values(|e: String| e@),
            plan.invalid@.map_values(|e: String| e@) == invalid_entries(
                views.subrange(0, i as int),
            ),
            plan.direct_sources@.map_values(|e: String| e@) == direct_entries(
                views.subrange(0, i as int),
            ),
            plan.dial_sources@.map_values(|e: String| e@) == dial_entries(
                views.subrange(0, i as int),
            ),
            plan.direct@.len() == plan.direct_sources@.len(),
            plan.dial@.len() == plan.dial_sources@.len(),
        decreases entries@.len() - i,
    {
        let ghost before = plan.invalid@.map_values(|e: String| e@);
        let ghost before_direct = plan.direct_sources@.map_values(|e: String| e@);
        let ghost before_dial = plan.dial_sources@.map_values(|e: String| e@);
        let ghost e = views[i as int];
        proof {
            let prefix = views.subrange(0, i as int);
            assert(views.subrange(0, i + 1) =~= prefix.push(e));
            prefix.lemma_filter_push(e, |e: Seq<char>| !multiaddr_parses(e));
            prefix.lemma_filter_push(e, |e: Seq<char>| multiaddr_parses(e) && names_peer(e));
            prefix.lemma_filter_push(e, |e: Seq<char>| multiaddr_parses(e) && !names_peer(e));
        }
        let entry = &entries[i];
        match parse_seed_addr(entry.as_str()) {
            Ok((addr, components)) => {
                proof {
                    lemma_last_peer_some(components@);
                }
                match classify_seed(addr, &components) {
                    SeedTarget::Direct(p, a) => {
                        plan.direct.push((p, a));
                        plan.direct_sources.push(entry.clone());
                        assert(plan.direct_sources@.map_values(|e: String| e@) =~= before_direct.push(e));
                        assert(plan.dial_sources@.map_values(|e: String| e@) == before_dial);
                    },
                    SeedTarget::Dial(a) => {
                        plan.dial.push(a);
                        plan.dial_sources.push(entry.clone());
                        assert(plan.dial_sources@.map_values(|e: String| e@) =~= before_dial.push(e));
                        assert(plan.direct_sources@.map_values(|e: String| e@) == before_direct);
                    },
                }
                assert(plan.invalid@.map_values(|e: String| e@) == before);
            },
            Err(_) => {
                plan.invalid.push(entry.clone());
                assert(plan.invalid@.map_values(|e: String| e@) =~= before.push(e));
                assert(plan.direct_sources@.map_values(|e: String| e@) == before_direct);
                assert(plan.dial_sources@.map_values(|e: String| e@) == before_dial);
            },
        }
        i = i + 1;
    }
    assert(views.subrange(0, i as int) =~= views);
    plan
}

/// Resolves a comma-separated seed list.
pub fn resolve(seed_list: &str) -> (r: BootstrapPlan)
    ensures
        r.invalid@.map_values(|e: String| e@) == invalid_entries(seed_entries_of(seed_list@)),
        r.direct_sources@.map_values(|e: String| e@) == direct_entries(seed_entries_of(seed_list@)),
        r.dial_sources@.map_values(|e: String| e@) == dial_entries(seed_entries_of(seed_list@)),
        r.direct@.len() == r.direct_sources@.len(),
        r.dial@.len() == r.dial_sources@.len(),
{
    let entries = seed_entries(seed_list);
    resolve_entries(&entries)
}

/// Whether some insertion put its peer into the routing table.
pub open spec fn some_success(outcomes: Seq<RoutingOutcome>) -> bool {
    exists|i: int| 0 <= i < outcomes.len() && outcomes[i] == RoutingOutcome::Success
}

/// Inserts the seed endpoints whose peer is known into the routing table, one
/// outcome per endpoint in order, then asks for one refresh query. The refresh
/// starts exactly when the table held a peer before or one insertion succeeded.
pub fn seed_routing_table(kad: &mut KadBehaviour, direct: &Vec<(PeerId, Multiaddr)>) -> (r: (
    Vec<RoutingOutcome>,
    bool,
))
    ensures
        r.0@.len() == direct@.len(),
        r.1 == (kad_has_peers(*old(kad)) || some_success(r.0@)),
        r.1 == kad_has_peers(*final(kad)),
        kad_serves(*final(kad)) == kad_serves(*old(kad)),
{
    let mut outcomes: Vec<RoutingOutcome> = Vec::new();
    let mut i: usize = 0;
    while i < direct.len()
        invariant
            i <= direct@.len(),
            outcomes@.len() == i,
            kad_has_peers(*kad) == (kad_has_peers(*old(kad)) || some_success(outcomes@)),
            kad_serves(*kad) == kad_serves(*old(kad)),
        decreases direct@.len() - i,
    {
        let ghost before = outcomes@;
        let outcome = kad_add_address(kad, &direct[i].0, &direct[i].1);
        outcomes.push(outcome);
        proof {
            if some_success(before) {
                let j = choose|j: int| 0 <= j < before.len() && before[j] == RoutingOutcome::Success;
                assert(outcomes@[j] == RoutingOutcome::Success);
            }
            if outcome == RoutingOutcome::Success {
                assert(outcomes@[i as int] == RoutingOutcome::Success);
            }
            if some_success(outcomes@) && outcome != RoutingOutcome::Success {
                let j = choose|j: int| 0 <= j < outcomes@.len() && outcomes@[j] == RoutingOutcome::Success;
                assert(before[j] == RoutingOutcome::Success);
            }
        }
        i = i + 1;
    }
    let started = kad_bootstrap(kad);
    (outcomes, started)
}

} // verus!
