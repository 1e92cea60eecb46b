//! Choice of the address to publish among the addresses bound to an interface.

use vstd::prelude::*;
use crate::address::{Ipv6Address, is_link_local, spec_is_link_local};

verus! {

/// What one enumerated entry carries as its address.
#[derive(Clone, Copy, Debug, PartialEq, Eq)]
pub enum EntryAddress {
    /// The entry has no address.
    Absent,
    /// The entry has an address of the IPv6 family.
    Inet6(Ipv6Address),
    /// The entry has an address of another family (IPv4, link layer, ...).
    Other,
}

/// One pair of interface name and address, as the host lists them.
#[derive(Clone, Debug, PartialEq, Eq)]
pub struct InterfaceAddressEntry {
    pub interface_name: String,
    pub address: EntryAddress,
}

/// What the host's enumeration of its addresses gave: the entries in the
/// host's order, or the error number with which the enumeration failed.
#[derive(Clone, Debug, PartialEq, Eq)]
pub enum Enumeration {
    Listed(Vec<InterfaceAddressEntry>),
    Failed(i32),
}

/// Why no address was selected.
#[derive(Clone, Debug, PartialEq, Eq)]
pub enum ResolutionError {
    /// The host could not list its addresses; the error number it gave.
    EnumerationFailed(i32),
    /// No entry carries the requested interface name.
    InterfaceNotFound(String),
    /// The interface is listed, but with no IPv6 address outside `fe80::/10`.
    NoSuitableAddress(String),
}

/// The IPv6 address of an entry, if it has one.
pub open spec fn spec_ipv6_of(entry: InterfaceAddressEntry) -> Option<Ipv6Address> {
    match entry.address {
        EntryAddress::Inet6(ip) => Some(ip),
        _ => None,
    }
}

/// The entry belongs to the interface `name`.
pub open spec fn names(entry: InterfaceAddressEntry, name: Seq<char>) -> bool {
    entry.interface_name@ == name
}

/// The entry belongs to the interface `name` and carries an IPv6 address that
/// is not link-local.
pub open spec fn suitable(entry: InterfaceAddressEntry, name: Seq<char>) -> bool {
    &&& names(entry, name)
    &&& spec_ipv6_of(entry) matches Some(ip)
    &&& !spec_is_link_local(ip)
}

/// Some entry belongs to the interface `name`.
pub open spec fn interface_listed(entries: Seq<InterfaceAddressEntry>, name: Seq<char>) -> bool {
    exists|i: int| 0 <= i < entries.len() && names(#[trigger] entries[i], name)
}

/// The position of the first suitable entry for `name`, or `entries.len()`
/// where there is none.
pub open spec fn first_suitable(entries: Seq<InterfaceAddressEntry>, name: Seq<char>) -> int
    decreases entries.len(),
{
    if entries.len() == 0 {
        0
    } else if suitable(entries[0], name) {
        0
    } else {
        1 + first_suitable(entries.drop_first(), name)
    }
}

/// The outcome of a resolution, without the name that an error carries.
pub enum Selection {
    Selected(Ipv6Address),
    InterfaceNotFound,
    NoSuitableAddress,
}

/// The address to publish for the interface `name`: the address of the first
/// suitable entry in the order of the list.
pub open spec fn select(entries: Seq<InterfaceAddressEntry>, name: Seq<char>) -> Selection {
    let i = first_suitable(entries, name);
    if !interface_listed(entries, name) {
        Selection::InterfaceNotFound
    } else if i < entries.len() {
        Selection::Selected(spec_ipv6_of(entries[i]).unwrap())
    } else {
        Selection::NoSuitableAddress
    }
}

/// How a result of `interface_ipv6` stands for a selection: the address where
/// one was selected, else the error that carries the interface's name.
pub open spec fn reports(
    res: Result<Ipv6Address, ResolutionError>,
    selection: Selection,
    name: Seq<char>,
) -> bool {
    match selection {
        Selection::Selected(ip) => res == Ok::<Ipv6Address, ResolutionError>(ip),
        Selection::InterfaceNotFound => res matches Err(ResolutionError::InterfaceNotFound(n))
            && n@ == name,
        Selection::NoSuitableAddress => res matches Err(ResolutionError::NoSuitableAddress(n))
            && n@ == name,
    }
}

/// The IPv6 address that an entry carries; `None` for an entry without an
/// address or with one of another family.
pub fn ipv6_from_interface_addr(ifaddr: &InterfaceAddressEntry) -> (res: Option<Ipv6Address>)
    ensures
        res == spec_ipv6_of(*ifaddr),
{
    match ifaddr.address {
        EntryAddress::Inet6(ip) => Some(ip),
        _ => None,
    }
}

/// Where the first suitable entry stands: nothing before it is suitable, and
/// it is suitable itself unless the list has none.
pub proof fn lemma_first_suitable(entries: Seq<InterfaceAddressEntry>, name: Seq<char>)
    ensures
        0 <= first_suitable(entries, name) <= entries.len(),
        forall|j: int|
            0 <= j < first_suitable(entries, name) ==> !suitable(#[trigger] entries[j], name),
        first_suitable(entries, name) < entries.len() ==> suitable(
            entries[first_suitable(entries, name)],
            name,
        ),
    decreases entries.len(),
{
    if entries.len() > 0 && !suitable(entries[0], name) {
        let rest = entries.drop_first();
        lemma_first_suitable(rest, name);
        assert forall|j: int| 0 <= j < first_suitable(entries, name) implies !suitable(
            #[trigger] entries[j],
            name,
        ) by {
            if j > 0 {
                assert(entries[j] == rest[j - 1]);
            }
        }
    }
}

/// The first suitable entry is the only one that is suitable with nothing
/// suitable before it.
pub proof fn lemma_first_suitable_unique(
    entries: Seq<InterfaceAddressEntry>,
    name: Seq<char>,
    i: int,
)
    requires
        0 <= i <= entries.len(),
        forall|j: int| 0 <= j < i ==> !suitable(#[trigger] entries[j], name),
        i < entries.len() ==> suitable(entries[i], name),
    ensures
        first_suitable(entries, name) == i,
{
    lemma_first_suitable(entries, name);
    let f = first_suitable(entries, name);
    if f < i {
        assert(!suitable(entries[f], name));
    } else if i < f {
        assert(!suitable(entries[i], name));
    }
}

/// A link-local address is never selected, whatever else the list holds.
pub proof fn lemma_never_link_local(entries: Seq<InterfaceAddressEntry>, name: Seq<char>)
    ensures
        select(entries, name) matches Selection::Selected(ip) ==> !spec_is_link_local(ip),
{
    lemma_first_suitable(entries, name);
}

/// An interface that is listed, but whose IPv6 addresses are all link-local,
/// has no suitable address: the answer is `NoSuitableAddress`, also where a
/// link-local address is the only one on the interface.
pub proof fn lemma_only_link_local(entries: Seq<InterfaceAddressEntry>, name: Seq<char>)
    requires
        interface_listed(entries, name),
        forall|i: int|
            0 <= i < entries.len() && names(#[trigger] entries[i], name) ==> (spec_ipv6_of(
                entries[i],
            ) matches Some(ip) ==> spec_is_link_local(ip)),
    ensures
        select(entries, name) == Selection::NoSuitableAddress,
{
    lemma_first_suitable(entries, name);
    let f = first_suitable(entries, name);
    if f < entries.len() {
        assert(names(entries[f], name));
    }
}

/// The selected address is bound to the requested interface: some entry with
/// that name carries it. An address that only other interfaces carry is never
/// the answer.
pub proof fn lemma_name_isolation(entries: Seq<InterfaceAddressEntry>, name: Seq<char>)
    ensures
        select(entries, name) matches Selection::Selected(ip) ==> exists|i: int|
            0 <= i < entries.len() && names(#[trigger] entries[i], name) && entries[i].address
                == EntryAddress::Inet6(ip),
{
    lemma_first_suitable(entries, name);
    let f = first_suitable(entries, name);
    if interface_listed(entries, name) && f < entries.len() {
        assert(names(entries[f], name));
    }
}

/// The answer is `InterfaceNotFound` exactly when no entry carries the
/// requested name; it is then not `NoSuitableAddress`.
pub proof fn lemma_interface_absence(entries: Seq<InterfaceAddressEntry>, name: Seq<char>)
    ensures
        select(entries, name) == Selection::InterfaceNotFound <==> forall|i: int|
            0 <= i < entries.len() ==> !names(#[trigger] entries[i], name),
        select(entries, name) == Selection::NoSuitableAddress ==> interface_listed(
            entries,
            name,
        ),
{
}

/// The first suitable entry wins: the selected address is that of the
/// earliest entry of the interface with an IPv6 address that is not
/// link-local, and nothing is selected only where there is no such entry.
pub proof fn lemma_first_match(entries: Seq<InterfaceAddressEntry>, name: Seq<char>, i: int)
    requires
        0 <= i < entries.len(),
        suitable(entries[i], name),
        forall|j: int| 0 <= j < i ==> !suitable(#[trigger] entries[j], name),
    ensures
        select(entries, name) == Selection::Selected(spec_ipv6_of(entries[i]).unwrap()),
{
    lemma_first_suitable_unique(entries, name, i);
    assert(names(entries[i], name));
}

/// Entries of other interfaces do not bear on the answer: the selection from
/// the whole list is the selection from the entries that carry the name, in
/// the order in which the list holds them.
pub proof fn lemma_other_interfaces_ignored(entries: Seq<InterfaceAddressEntry>, name: Seq<char>)
    ensures
        select(entries, name) == select(
            entries.filter(|e: InterfaceAddressEntry| names(e, name)),
            name,
        ),
{
    let pred = |e: InterfaceAddressEntry| names(e, name);
    let kept = entries.filter(pred);
    lemma_first_suitable(entries, name);
    let f = first_suitable(entries, name);
    assert forall|j: int| 0 <= j < kept.len() implies names(#[trigger] kept[j], name)
        && entries.contains(kept[j]) by {
        entries.lemma_filter_pred(pred, j);
        assert(kept.contains(kept[j]));
        entries.lemma_filter_contains_rev(pred, kept[j]);
    }
    if interface_listed(entries, name) {
        let i = choose|i: int| 0 <= i < entries.len() && names(#[trigger] entries[i], name);
        assert(pred(entries[i]));
        entries.lemma_filter_contains(pred, i);
        let j = choose|j: int| 0 <= j < kept.len() && kept[j] == entries[i];
        assert(names(kept[j], name));
    }
    if interface_listed(kept, name) {
        let j = choose|j: int| 0 <= j < kept.len() && names(#[trigger] kept[j], name);
        let i = choose|i: int| 0 <= i < entries.len() && entries[i] == kept[j];
        assert(names(entries[i], name));
    }
    if f < entries.len() {
        let before = entries.subrange(0, f);
        let chosen = seq![entries[f]];
        let after = entries.subrange(f + 1, entries.len() as int);
        assert(entries =~= before + (chosen + after));
        Seq::filter_distributes_over_add(before, chosen + after, pred);
        Seq::filter_distributes_over_add(chosen, after, pred);
        assert(chosen.filter(pred) =~= chosen) by {
            reveal_with_fuel(Seq::filter, 2);
            assert(chosen.drop_last() =~= Seq::<InterfaceAddressEntry>::empty());
        }
        let k = before.filter(pred).len() as int;
        assert(kept =~= before.filter(pred) + (chosen + after.filter(pred)));
        assert(kept[k] == entries[f]);
        assert forall|j: int| 0 <= j < k implies !suitable(#[trigger] kept[j], name) by {
            assert(kept[j] == before.filter(pred)[j]);
            assert(before.filter(pred).contains(kept[j]));
            before.lemma_filter_contains_rev(pred, kept[j]);
            let i = choose|i: int| 0 <= i < before.len() && before[i] == kept[j];
            assert(before[i] == entries[i]);
        }
        lemma_first_suitable_unique(kept, name, k);
    } else {
        assert forall|j: int| 0 <= j < kept.len() implies !suitable(#[trigger] kept[j], name) by {
            let i = choose|i: int| 0 <= i < entries.len() && entries[i] == kept[j];
            assert(!suitable(entries[i], name));
        }
        lemma_first_suitable_unique(kept, name, kept.len() as int);
    }
}

/// Selects the address to publish for the interface `ifname` from the entries
/// that the host lists, in their order: the first IPv6 address bound to that
/// interface that is not link-local. Entries of other interfaces, entries
/// without an IPv6 address and link-local addresses are passed over. Where no
/// entry names the interface the error is `InterfaceNotFound`; where some does
/// but none is suitable, `NoSuitableAddress`.
pub fn interface_ipv6(entries: &Vec<InterfaceAddressEntry>, ifname: &str) -> (res: Result<
    Ipv6Address,
    ResolutionError,
>)
    ensures
        reports(res, select(entries@, ifname@), ifname@),
        res matches Ok(ip) ==> !spec_is_link_local(ip),
{
    proof {
        lemma_never_link_local(entries@, ifname@);
    }
    let name: String = ifname.to_owned();
    let mut listed: bool = false;
    let mut i: usize = 0;
    while i < entries.len()
        invariant
            0 <= i <= entries.len(),
            name@ == ifname@,
            forall|j: int| 0 <= j < i ==> !suitable(#[trigger] entries@[j], ifname@),
            listed <==> exists|j: int| 0 <= j < i && names(#[trigger] entries@[j], ifname@),
        decreases entries.len() - i,
    {
        let entry = &entries[i];
        if entry.interface_name == name {
            listed = true;
            if let Some(ip) = ipv6_from_interface_addr(entry) {
                if !is_link_local(&ip) {
                    proof {
                        lemma_first_suitable_unique(entries@, ifname@, i as int);
                    }
                    return Ok(ip);
                }
            }
        }
        i += 1;
    }
    proof {
        lemma_first_suitable_unique(entries@, ifname@, entries@.len() as int);
    }
    if listed {
        Err(ResolutionError::NoSuitableAddress(name))
    } else {
        Err(ResolutionError::InterfaceNotFound(name))
    }
}

/// Resolves the interface `ifname` against what the enumeration gave. A
/// failed enumeration is an error of its own, with the host's error number:
/// it is never taken for an empty list. A list is searched as
/// `interface_ipv6` does.
pub fn resolve(enumeration: &Enumeration, ifname: &str) -> (res: Result<
    Ipv6Address,
    ResolutionError,
>)
    ensures
        match *enumeration {
            Enumeration::Failed(errno) => res == Err::<Ipv6Address, ResolutionError>(
                ResolutionError::EnumerationFailed(errno),
            ),
            Enumeration::Listed(entries) => reports(res, select(entries@, ifname@), ifname@),
        },
        res matches Ok(ip) ==> !spec_is_link_local(ip),
{
    match enumeration {
        Enumeration::Failed(errno) => Err(ResolutionError::EnumerationFailed(*errno)),
        Enumeration::Listed(entries) => interface_ipv6(entries, ifname),
    }
}

} // verus!
