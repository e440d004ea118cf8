//! The device catalog: every discovered device appears twice, once to be
//! opened in shared mode and once in exclusive mode, and the entries are
//! sorted by their display names. Callers select a device by the position of
//! its entry.

use crate::backend::{text_of, DeviceEntry, DeviceEntryView, Mode};
use crate::order::{
    lemma_lex_le_reflexive, lemma_lex_le_total, lemma_lex_le_transitive,
    lemma_name_le_antisymmetric, name_le, name_sorts_first,
};
use vstd::prelude::*;
use vstd::seq_lib::to_multiset_insert;
use vstd::string::StringExecFns;
use vstd::utf8::encode_utf8;

verus! {

/// A device as the platform reports it.
#[derive(Debug, Clone)]
pub struct Endpoint {
    /// The name shown to the user.
    pub name: String,
    /// The platform identifier, where the platform has one.
    pub id: Option<String>,
    pub is_input: bool,
    pub is_output: bool,
}

/// What an `Endpoint` holds, as plain values.
pub struct EndpointView {
    pub name: Seq<char>,
    pub id: Option<Seq<char>>,
    pub is_input: bool,
    pub is_output: bool,
}

impl View for Endpoint {
    type V = EndpointView;

    open spec fn view(&self) -> EndpointView {
        EndpointView {
            name: self.name@,
            id: text_of(self.id),
            is_input: self.is_input,
            is_output: self.is_output,
        }
    }
}

/// The direction in which a device moves audio.
#[derive(Debug, Clone, Copy, PartialEq, Eq, Structural)]
pub enum Flow {
    /// Towards the speakers.
    Render,
    /// From the microphone.
    Capture,
}

impl Endpoint {
    /// A copy with the same contents.
    pub fn duplicate(&self) -> (copy: Endpoint)
        ensures
            copy@ == self@,
    {
        let id = match &self.id {
            Some(id) => Some(id.clone()),
            None => None,
        };
        Endpoint { name: self.name.clone(), id, is_input: self.is_input, is_output: self.is_output }
    }

    /// The endpoint for a device found while the devices of one direction
    /// were listed: a render device is an output, a capture device an input.
    pub fn discovered(id: String, friendly: Option<String>, flow: Flow) -> (endpoint: Endpoint)
        ensures
            endpoint@ == (EndpointView {
                name: match friendly {
                    Some(f) => f@,
                    None => id@,
                },
                id: Some(id@),
                is_input: flow == Flow::Capture,
                is_output: flow == Flow::Render,
            }),
    {
        let name = display_name(&id, friendly);
        match flow {
            Flow::Render => Endpoint { name, id: Some(id), is_input: false, is_output: true },
            Flow::Capture => Endpoint { name, id: Some(id), is_input: true, is_output: false },
        }
    }
}

/// What the entries of a list hold.
pub open spec fn entry_views(entries: Seq<DeviceEntry>) -> Seq<DeviceEntryView> {
    entries.map_values(|e: DeviceEntry| e@)
}

/// What the endpoints of a list hold.
pub open spec fn endpoint_views(endpoints: Seq<Endpoint>) -> Seq<EndpointView> {
    endpoints.map_values(|e: Endpoint| e@)
}

/// The name shown for a device: its friendly name, or its identifier where
/// it has no friendly name.
pub fn display_name(id: &String, friendly: Option<String>) -> (name: String)
    ensures
        name@ == match friendly {
            Some(f) => f@,
            None => id@,
        },
{
    match friendly {
        Some(f) => f,
        None => id.clone(),
    }
}

/// What is written after the name of a device to tell its two entries apart.
pub open spec fn mode_suffix(mode: Mode) -> Seq<char> {
    match mode {
        Mode::Shared => " (SHARED)"@,
        Mode::Exclusive => " (EXCLUSIVE)"@,
    }
}

/// The catalog entry of a device for one access mode: the name is decorated
/// with the mode, the identifier and the capabilities are those of the device.
pub open spec fn entry_for(endpoint: EndpointView, mode: Mode) -> DeviceEntryView {
    DeviceEntryView {
        name: endpoint.name + mode_suffix(mode),
        device_id: endpoint.id,
        mode,
        is_input: endpoint.is_input,
        is_output: endpoint.is_output,
    }
}

/// Makes the catalog entry of a device for one access mode.
pub fn make_entry(endpoint: &Endpoint, mode: Mode) -> (entry: DeviceEntry)
    ensures
        entry@ == entry_for(endpoint@, mode),
{
    let mut name = endpoint.name.clone();
    match mode {
        Mode::Shared => {
            name.append(" (SHARED)");
        },
        Mode::Exclusive => {
            name.append(" (EXCLUSIVE)");
        },
    }
    let device_id = match &endpoint.id {
        Some(id) => Some(id.clone()),
        None => None,
    };
    DeviceEntry {
        name,
        device_id,
        mode,
        is_input: endpoint.is_input,
        is_output: endpoint.is_output,
    }
}

/// The entries of a list of devices before sorting: for device `i` the
/// shared entry at `2 * i` and the exclusive entry right after it.
pub open spec fn listing(endpoints: Seq<EndpointView>) -> Seq<DeviceEntryView> {
    Seq::new(
        2 * endpoints.len(),
        |k: int|
            entry_for(
                endpoints[k / 2],
                if k % 2 == 0 {
                    Mode::Shared
                } else {
                    Mode::Exclusive
                },
            ),
    )
}

/// Appends the two entries of every device of `endpoints` to `entries`.
pub fn expand_into(endpoints: &Vec<Endpoint>, entries: &mut Vec<DeviceEntry>)
    ensures
        entry_views(final(entries)@) == entry_views(old(entries)@) + listing(
            endpoint_views(endpoints@),
        ),
{
    let ghost before = entry_views(entries@);
    let ghost devices = endpoint_views(endpoints@);
    let mut i: usize = 0;
    while i < endpoints.len()
        invariant
            i <= endpoints@.len(),
            devices == endpoint_views(endpoints@),
            entry_views(entries@) == before + listing(devices.take(i as int)),
        decreases endpoints@.len() - i,
    {
        let ghost so_far = entry_views(entries@);
        let shared = make_entry(&endpoints[i], Mode::Shared);
        let exclusive = make_entry(&endpoints[i], Mode::Exclusive);
        entries.push(shared);
        entries.push(exclusive);
        i += 1;
        proof {
            assert(devices[i - 1] == endpoints@[i - 1]@);
            assert(entry_views(entries@) =~= so_far.push(shared@).push(exclusive@));
            assert(listing(devices.take(i as int)) =~= listing(devices.take(i - 1)).push(
                shared@,
            ).push(exclusive@));
        }
    }
    proof {
        assert(devices.take(i as int) =~= devices);
    }
}

/// A predicate that holds of the entries named `name`.
pub open spec fn named(name: Seq<char>) -> spec_fn(DeviceEntryView) -> bool {
    |e: DeviceEntryView| e.name == name
}

/// Whether the entries stand in the order of their names.
pub open spec fn sorted_by_name(entries: Seq<DeviceEntryView>) -> bool {
    forall|i: int, j: int|
        0 <= i < j < entries.len() ==> name_le(#[trigger] entries[i].name, #[trigger] entries[j].name)
}

/// Whether `sorted` is `original` sorted by name: the same entries, in the
/// order of their names, and entries of one name in the order they had.
pub open spec fn is_sorted_form(
    sorted: Seq<DeviceEntryView>,
    original: Seq<DeviceEntryView>,
) -> bool {
    &&& sorted.to_multiset() == original.to_multiset()
    &&& sorted_by_name(sorted)
    &&& forall|name: Seq<char>| #[trigger]
        sorted.filter(named(name)) == original.filter(named(name))
}

/// The first position of `sorted` whose entry does not sort before `name`.
fn insertion_point(sorted: &Vec<DeviceEntry>, name: &String) -> (p: usize)
    ensures
        p <= sorted@.len(),
        forall|i: int| 0 <= i < p ==> !name_le(name@, #[trigger] sorted@[i].name@),
        p < sorted@.len() ==> name_le(name@, sorted@[p as int].name@),
{
    let mut p: usize = 0;
    while p < sorted.len() && !name_sorts_first(name.as_str(), sorted[p].name.as_str())
        invariant
            p <= sorted@.len(),
            forall|i: int| 0 <= i < p ==> !name_le(name@, #[trigger] sorted@[i].name@),
        decreases sorted@.len() - p,
    {
        p += 1;
    }
    p
}

/// Putting `x` where every entry before it sorts strictly before it, and the
/// entry after it does not, keeps a sorted list sorted, adds `x` to what the
/// list holds, and puts `x` in front of the entries of its own name.
proof fn lemma_insert_keeps_sorted_form(
    sorted: Seq<DeviceEntryView>,
    rest: Seq<DeviceEntryView>,
    x: DeviceEntryView,
    p: int,
)
    requires
        is_sorted_form(sorted, rest),
        0 <= p <= sorted.len(),
        forall|i: int| 0 <= i < p ==> !name_le(x.name, #[trigger] sorted[i].name),
        p < sorted.len() ==> name_le(x.name, sorted[p].name),
    ensures
        is_sorted_form(sorted.insert(p, x), seq![x] + rest),
{
    let longer = sorted.insert(p, x);
    let original = seq![x] + rest;
    assert(longer.to_multiset() == original.to_multiset()) by {
        to_multiset_insert(sorted, p, x);
        to_multiset_insert(rest, 0, x);
        assert(rest.insert(0, x) =~= original);
    }
    assert forall|i: int, j: int| 0 <= i < j < longer.len() implies name_le(
        #[trigger] longer[i].name,
        #[trigger] longer[j].name,
    ) by {
        if j == p {
            assert(longer[i] == sorted[i]);
            lemma_lex_le_total(encode_utf8(x.name), encode_utf8(sorted[i].name));
        } else if i == p {
            assert(longer[j] == sorted[j - 1]);
            if j - 1 > p {
                lemma_lex_le_transitive(
                    encode_utf8(x.name),
                    encode_utf8(sorted[p].name),
                    encode_utf8(sorted[j - 1].name),
                );
            }
        } else {
            let i0 = if i < p {
                i
            } else {
                i - 1
            };
            let j0 = if j < p {
                j
            } else {
                j - 1
            };
            assert(longer[i] == sorted[i0] && longer[j] == sorted[j0]);
        }
    }
    assert forall|name: Seq<char>| #[trigger]
        longer.filter(named(name)) == original.filter(named(name)) by {
        let pred = named(name);
        let front = sorted.take(p);
        let back = sorted.skip(p);
        let one = seq![x];
        assert(sorted =~= front + back);
        assert(longer =~= front + one + back);
        Seq::filter_distributes_over_add(front, back, pred);
        Seq::filter_distributes_over_add(front + one, back, pred);
        Seq::filter_distributes_over_add(front, one, pred);
        Seq::filter_distributes_over_add(one, rest, pred);
        assert(sorted.filter(named(name)) == rest.filter(named(name)));
        if x.name == name {
            // No entry in front of `x` has its name: each sorts strictly before it.
            assert(front.filter(pred).len() == 0) by {
                if front.filter(pred).len() > 0 {
                    let e = front.filter(pred)[0];
                    front.lemma_filter_pred(pred, 0);
                    assert(front.filter(pred).contains(e));
                    front.lemma_filter_contains_rev(pred, e);
                    let i = choose|i: int| 0 <= i < front.len() && front[i] == e;
                    assert(sorted[i] == e);
                    lemma_lex_le_reflexive(encode_utf8(x.name));
                }
            }
            assert(front.filter(pred) =~= Seq::<DeviceEntryView>::empty());
            assert(front.filter(pred) + one.filter(pred) + back.filter(pred) =~= one.filter(pred)
                + (front.filter(pred) + back.filter(pred)));
        } else {
            assert(one.filter(pred).len() == 0) by {
                if one.filter(pred).len() > 0 {
                    let e = one.filter(pred)[0];
                    one.lemma_filter_pred(pred, 0);
                    assert(one.filter(pred).contains(e));
                    one.lemma_filter_contains_rev(pred, e);
                }
            }
            assert(one.filter(pred) =~= Seq::<DeviceEntryView>::empty());
            assert(front.filter(pred) + one.filter(pred) + back.filter(pred) =~= front.filter(pred)
                + back.filter(pred));
            assert(one.filter(pred) + rest.filter(pred) =~= rest.filter(pred));
        }
    }
}

/// Sorts entries by name. Entries of the same name stay in the order in
/// which they came.
pub fn sort_by_name(entries: Vec<DeviceEntry>) -> (sorted: Vec<DeviceEntry>)
    ensures
        is_sorted_form(entry_views(sorted@), entry_views(entries@)),
{
    let ghost original = entry_views(entries@);
    let mut rest = entries;
    let mut sorted: Vec<DeviceEntry> = Vec::new();
    proof {
        assert(original.skip(original.len() as int) =~= Seq::<DeviceEntryView>::empty());
        assert(entry_views(sorted@) =~= Seq::<DeviceEntryView>::empty());
    }
    while rest.len() > 0
        invariant
            rest@.len() <= original.len(),
            entry_views(rest@) == original.take(rest@.len() as int),
            is_sorted_form(entry_views(sorted@), original.skip(rest@.len() as int)),
        decreases rest@.len(),
    {
        let ghost held = entry_views(sorted@);
        let ghost count = rest@.len() as int;
        let x = match rest.pop() {
            Some(x) => x,
            None => {
                return sorted;
            },
        };
        let p = insertion_point(&sorted, &x.name);
        proof {
            assert(x@ == original.take(count)[count - 1]);
            assert forall|i: int| 0 <= i < p implies !name_le(x@.name, #[trigger] held[i].name) by {
                assert(held[i].name == sorted@[i].name@);
            }
            lemma_insert_keeps_sorted_form(held, original.skip(count), x@, p as int);
            assert(seq![x@] + original.skip(count) =~= original.skip(count - 1));
            assert(entry_views(rest@) =~= original.take(count - 1));
        }
        sorted.insert(p, x);
        proof {
            assert(entry_views(sorted@) =~= held.insert(p as int, x@));
        }
    }
    proof {
        assert(original.skip(0) =~= original);
    }
    sorted
}

/// Two lists that hold the same entries, both in the order of their names and
/// with the entries of every name in the same order, are the same list.
proof fn lemma_sorted_lists_agree(a: Seq<DeviceEntryView>, b: Seq<DeviceEntryView>)
    requires
        a.to_multiset() == b.to_multiset(),
        sorted_by_name(a),
        sorted_by_name(b),
        forall|name: Seq<char>| #[trigger] a.filter(named(name)) == b.filter(named(name)),
    ensures
        a == b,
    decreases a.len(),
{
    broadcast use vstd::seq_lib::group_to_multiset_ensures;

    assert(a.len() == b.len()) by {
        vstd::seq_lib::to_multiset_len(a);
        vstd::seq_lib::to_multiset_len(b);
    }
    if a.len() == 0 {
        assert(a =~= b);
    } else {
        let rest_a = a.drop_first();
        let rest_b = b.drop_first();
        // Each first entry has the least name of all, so both have one name.
        assert(name_le(a[0].name, b[0].name)) by {
            assert(b.contains(b[0]));
            assert(a.to_multiset().count(b[0]) > 0);
            assert(a.contains(b[0]));
            let i = choose|i: int| 0 <= i < a.len() && a[i] == b[0];
            if i == 0 {
                lemma_lex_le_reflexive(encode_utf8(a[0].name));
            }
        }
        assert(name_le(b[0].name, a[0].name)) by {
            assert(a.contains(a[0]));
            assert(b.to_multiset().count(a[0]) > 0);
            assert(b.contains(a[0]));
            let i = choose|i: int| 0 <= i < b.len() && b[i] == a[0];
            if i == 0 {
                lemma_lex_le_reflexive(encode_utf8(b[0].name));
            }
        }
        lemma_name_le_antisymmetric(a[0].name, b[0].name);
        assert(a =~= seq![a[0]] + rest_a);
        assert(b =~= seq![b[0]] + rest_b);
        let own = named(a[0].name);
        rest_a.lemma_filter_prepend(a[0], own);
        rest_b.lemma_filter_prepend(b[0], own);
        assert(a.filter(own) == b.filter(own));
        assert(a.filter(own)[0] == a[0]);
        assert(b.filter(own)[0] == b[0]);
        assert(a[0] == b[0]);
        assert(rest_a.to_multiset() == rest_b.to_multiset()) by {
            assert(a.remove(0) =~= rest_a);
            assert(b.remove(0) =~= rest_b);
        }
        assert forall|name: Seq<char>| #[trigger]
            rest_a.filter(named(name)) == rest_b.filter(named(name)) by {
            let pred = named(name);
            rest_a.lemma_filter_prepend(a[0], pred);
            rest_b.lemma_filter_prepend(b[0], pred);
            assert(a.filter(named(name)) == b.filter(named(name)));
            if pred(a[0]) {
                assert(rest_a.filter(pred) =~= a.filter(pred).drop_first());
                assert(rest_b.filter(pred) =~= b.filter(pred).drop_first());
            } else {
                assert(rest_a.filter(pred) =~= a.filter(pred));
                assert(rest_b.filter(pred) =~= b.filter(pred));
            }
        }
        assert(sorted_by_name(rest_a)) by {
            assert forall|i: int, j: int| 0 <= i < j < rest_a.len() implies name_le(
                #[trigger] rest_a[i].name,
                #[trigger] rest_a[j].name,
            ) by {
                assert(rest_a[i] == a[i + 1] && rest_a[j] == a[j + 1]);
            }
        }
        assert(sorted_by_name(rest_b)) by {
            assert forall|i: int, j: int| 0 <= i < j < rest_b.len() implies name_le(
                #[trigger] rest_b[i].name,
                #[trigger] rest_b[j].name,
            ) by {
                assert(rest_b[i] == b[i + 1] && rest_b[j] == b[j + 1]);
            }
        }
        lemma_sorted_lists_agree(rest_a, rest_b);
    }
}

/// Sorting by name has one result: two lists that are both a sorted form of
/// one list are the same list.
pub proof fn law_sorted_form_is_unique(
    first: Seq<DeviceEntryView>,
    second: Seq<DeviceEntryView>,
    original: Seq<DeviceEntryView>,
)
    requires
        is_sorted_form(first, original),
        is_sorted_form(second, original),
    ensures
        first == second,
{
    assert forall|name: Seq<char>| #[trigger]
        first.filter(named(name)) == second.filter(named(name)) by {
        assert(first.filter(named(name)) == original.filter(named(name)));
        assert(second.filter(named(name)) == original.filter(named(name)));
    }
    lemma_sorted_lists_agree(first, second);
}

/// Builds the catalog of the devices found: the two entries of every render
/// device, then those of every capture device, all sorted by name.
pub fn build_catalog(render: &Vec<Endpoint>, capture: &Vec<Endpoint>) -> (catalog: Vec<DeviceEntry>)
    ensures
        is_sorted_form(
            entry_views(catalog@),
            listing(endpoint_views(render@) + endpoint_views(capture@)),
        ),
{
    let mut entries: Vec<DeviceEntry> = Vec::new();
    expand_into(render, &mut entries);
    expand_into(capture, &mut entries);
    proof {
        lemma_listing_of_both(endpoint_views(render@), endpoint_views(capture@));
        assert(entry_views(entries@) =~= listing(endpoint_views(render@)) + listing(
            endpoint_views(capture@),
        ));
    }
    sort_by_name(entries)
}

/// The entries of two lists of devices, one after the other, are the entries
/// of the lists joined.
pub proof fn lemma_listing_of_both(first: Seq<EndpointView>, second: Seq<EndpointView>)
    ensures
        listing(first) + listing(second) == listing(first + second),
{
    let joined = listing(first + second);
    let both = listing(first) + listing(second);
    assert forall|k: int| 0 <= k < joined.len() implies both[k] == joined[k] by {
        if k >= 2 * first.len() {
            let r = k - 2 * first.len();
            assert(both[k] == listing(second)[r]);
            assert(r / 2 == k / 2 - first.len());
            assert(r % 2 == k % 2);
        }
    }
    assert(both =~= joined);
}

/// A catalog holds exactly two entries for every device found, one shared and
/// one exclusive, both with the identifier and the capabilities of the
/// device, and nothing else.
pub proof fn law_two_entries_per_device(
    endpoints: Seq<EndpointView>,
    catalog: Seq<DeviceEntryView>,
)
    requires
        is_sorted_form(catalog, listing(endpoints)),
    ensures
        catalog.len() == 2 * endpoints.len(),
        catalog.to_multiset() == listing(endpoints).to_multiset(),
        forall|i: int|
            0 <= i < endpoints.len() ==> catalog.contains(
                #[trigger] entry_for(endpoints[i], Mode::Shared),
            ) && catalog.contains(#[trigger] entry_for(endpoints[i], Mode::Exclusive)),
        forall|k: int|
            0 <= k < catalog.len() ==> exists|i: int, mode: Mode|
                0 <= i < endpoints.len() && #[trigger] catalog[k] == #[trigger] entry_for(
                    endpoints[i],
                    mode,
                ),
        forall|i: int, mode: Mode|
            0 <= i < endpoints.len() ==> {
                let entry = #[trigger] entry_for(endpoints[i], mode);
                entry.mode == mode && entry.device_id == endpoints[i].id && entry.is_input
                    == endpoints[i].is_input && entry.is_output == endpoints[i].is_output
            },
{
    broadcast use vstd::seq_lib::group_to_multiset_ensures;

    let plain = listing(endpoints);
    assert(catalog.len() == plain.len()) by {
        vstd::seq_lib::to_multiset_len(catalog);
        vstd::seq_lib::to_multiset_len(plain);
    }
    assert forall|i: int| 0 <= i < endpoints.len() implies catalog.contains(
        #[trigger] entry_for(endpoints[i], Mode::Shared),
    ) && catalog.contains(#[trigger] entry_for(endpoints[i], Mode::Exclusive)) by {
        assert(plain[2 * i] == entry_for(endpoints[i], Mode::Shared));
        assert(plain[2 * i + 1] == entry_for(endpoints[i], Mode::Exclusive));
        assert(plain.contains(plain[2 * i]));
        assert(plain.contains(plain[2 * i + 1]));
        assert(catalog.to_multiset().count(plain[2 * i]) > 0);
        assert(catalog.to_multiset().count(plain[2 * i + 1]) > 0);
    }
    assert forall|k: int| 0 <= k < catalog.len() implies exists|i: int, mode: Mode|
        0 <= i < endpoints.len() && #[trigger] catalog[k] == #[trigger] entry_for(
            endpoints[i],
            mode,
        ) by {
        assert(catalog.contains(catalog[k]));
        assert(plain.to_multiset().count(catalog[k]) > 0);
        assert(plain.contains(catalog[k]));
        let j = choose|j: int| 0 <= j < plain.len() && plain[j] == catalog[k];
        let mode = if j % 2 == 0 {
            Mode::Shared
        } else {
            Mode::Exclusive
        };
        assert(catalog[k] == entry_for(endpoints[j / 2], mode));
    }
}

/// Whether an endpoint of `endpoints` before position `upto` has the name
/// `name`.
pub open spec fn name_seen(endpoints: Seq<EndpointView>, upto: int, name: Seq<char>) -> bool {
    exists|j: int| 0 <= j < upto && j < endpoints.len() && (#[trigger] endpoints[j]).name == name
}

/// The endpoints whose name no earlier endpoint has, in their order.
pub open spec fn first_of_each_name(endpoints: Seq<EndpointView>) -> Seq<EndpointView>
    decreases endpoints.len(),
{
    if endpoints.len() == 0 {
        endpoints
    } else {
        let front = first_of_each_name(endpoints.drop_last());
        if name_seen(endpoints, endpoints.len() - 1, endpoints.last().name) {
            front
        } else {
            front.push(endpoints.last())
        }
    }
}

/// What is kept of a list of endpoints is made of endpoints of the list, holds
/// no name twice, and holds every name of the list.
pub proof fn law_one_endpoint_per_name(endpoints: Seq<EndpointView>)
    ensures
        forall|m: int|
            0 <= m < first_of_each_name(endpoints).len() ==> endpoints.contains(
                #[trigger] first_of_each_name(endpoints)[m],
            ),
        forall|m: int, n: int|
            0 <= m < n < first_of_each_name(endpoints).len() ==> (
            #[trigger] first_of_each_name(endpoints)[m]).name != (
            #[trigger] first_of_each_name(endpoints)[n]).name,
        forall|j: int|
            0 <= j < endpoints.len() ==> exists|m: int|
                0 <= m < first_of_each_name(endpoints).len() && (
                #[trigger] first_of_each_name(endpoints)[m]).name == (#[trigger] endpoints[j]).name,
    decreases endpoints.len(),
{
    if endpoints.len() > 0 {
        let front = endpoints.drop_last();
        let last = endpoints.last();
        let kept_front = first_of_each_name(front);
        let kept = first_of_each_name(endpoints);
        law_one_endpoint_per_name(front);
        let seen = name_seen(endpoints, endpoints.len() - 1, last.name);
        assert forall|m: int| 0 <= m < kept.len() implies endpoints.contains(
            #[trigger] kept[m],
        ) by {
            if m < kept_front.len() {
                assert(kept[m] == kept_front[m]);
                assert(front.contains(kept_front[m]));
                let j = choose|j: int| 0 <= j < front.len() && front[j] == kept_front[m];
                assert(endpoints[j] == kept[m]);
            } else {
                assert(endpoints[endpoints.len() - 1] == kept[m]);
            }
        }
        assert forall|m: int, n: int| 0 <= m < n < kept.len() implies (#[trigger] kept[m]).name != (
        #[trigger] kept[n]).name by {
            if n < kept_front.len() {
                assert(kept[m] == kept_front[m] && kept[n] == kept_front[n]);
            } else {
                // The last endpoint was kept, so its name has not been seen.
                assert(kept[m] == kept_front[m]);
                assert(front.contains(kept_front[m]));
                let j = choose|j: int| 0 <= j < front.len() && front[j] == kept_front[m];
                assert(endpoints[j] == front[j]);
            }
        }
        assert forall|j: int| 0 <= j < endpoints.len() implies exists|m: int|
            0 <= m < kept.len() && (#[trigger] kept[m]).name == (#[trigger] endpoints[j]).name by {
            if j < front.len() {
                assert(endpoints[j] == front[j]);
                let m = choose|m: int|
                    0 <= m < kept_front.len() && (#[trigger] kept_front[m]).name == front[j].name;
                assert(kept[m] == kept_front[m]);
            } else if seen {
                let i = choose|i: int|
                    0 <= i < endpoints.len() - 1 && i < endpoints.len() && (
                    #[trigger] endpoints[i]).name == last.name;
                assert(endpoints[i] == front[i]);
                let m = choose|m: int|
                    0 <= m < kept_front.len() && (#[trigger] kept_front[m]).name == front[i].name;
                assert(kept[m] == kept_front[m]);
            } else {
                assert(kept[kept.len() - 1].name == endpoints[j].name);
            }
        }
    }
}

/// Keeps the first endpoint of every name and drops the later ones: two
/// devices that report one name count as one device.
pub fn unique_by_name(endpoints: &Vec<Endpoint>) -> (kept: Vec<Endpoint>)
    ensures
        endpoint_views(kept@) == first_of_each_name(endpoint_views(endpoints@)),
{
    let ghost all = endpoint_views(endpoints@);
    let mut kept: Vec<Endpoint> = Vec::new();
    let mut i: usize = 0;
    proof {
        assert(endpoint_views(kept@) =~= first_of_each_name(all.take(0)));
    }
    while i < endpoints.len()
        invariant
            i <= endpoints@.len(),
            all == endpoint_views(endpoints@),
            endpoint_views(kept@) == first_of_each_name(all.take(i as int)),
            forall|m: int|
                0 <= m < kept@.len() ==> name_seen(all, i as int, #[trigger] kept@[m].name@),
            forall|j: int|
                0 <= j < i ==> exists|m: int|
                    0 <= m < kept@.len() && (#[trigger] kept@[m]).name@ == (
                    #[trigger] all[j]).name,
        decreases endpoints@.len() - i,
    {
        let candidate = &endpoints[i];
        let mut seen = false;
        let mut m: usize = 0;
        while m < kept.len() && !seen
            invariant
                m <= kept@.len(),
                candidate == endpoints@[i as int],
                seen ==> exists|n: int|
                    0 <= n < kept@.len() && (#[trigger] kept@[n]).name@ == candidate.name@,
                !seen ==> forall|n: int|
                    0 <= n < m ==> (#[trigger] kept@[n]).name@ != candidate.name@,
            decreases kept@.len() - m + if seen { 0int } else { 1int },
        {
            if kept[m].name == candidate.name {
                seen = true;
            } else {
                m += 1;
            }
        }
        proof {
            let longer = all.take(i + 1);
            assert(longer.drop_last() =~= all.take(i as int));
            assert(longer.last() == candidate@);
            assert(all[i as int] == candidate@);
            if seen {
                let n = choose|n: int|
                    0 <= n < kept@.len() && (#[trigger] kept@[n]).name@ == candidate.name@;
                assert(name_seen(all, i as int, kept@[n].name@));
                let j = choose|j: int|
                    0 <= j < i && j < all.len() && (#[trigger] all[j]).name == candidate.name@;
                assert(longer[j] == all[j]);
                assert(name_seen(longer, longer.len() - 1, longer.last().name));
            } else {
                if name_seen(longer, longer.len() - 1, longer.last().name) {
                    let j = choose|j: int|
                        0 <= j < longer.len() - 1 && j < longer.len() && (
                        #[trigger] longer[j]).name == longer.last().name;
                    assert(longer[j] == all[j]);
                    let n = choose|n: int|
                        0 <= n < kept@.len() && (#[trigger] kept@[n]).name@ == (
                        #[trigger] all[j]).name;
                    assert(false);
                }
            }
        }
        let ghost held = kept@;
        if !seen {
            let copy = candidate.duplicate();
            kept.push(copy);
            proof {
                assert(endpoint_views(kept@) =~= endpoint_views(held).push(candidate@));
            }
        }
        i += 1;
        proof {
            assert forall|m: int| 0 <= m < kept@.len() implies name_seen(
                all,
                i as int,
                #[trigger] kept@[m].name@,
            ) by {
                if m < held.len() {
                    assert(kept@[m] == held[m]);
                    assert(name_seen(all, i - 1, held[m].name@));
                    let j = choose|j: int|
                        0 <= j < i - 1 && j < all.len() && (#[trigger] all[j]).name
                            == held[m].name@;
                    assert(all[j].name == kept@[m].name@);
                } else {
                    assert(all[i - 1].name == kept@[m].name@);
                }
            }
            assert forall|j: int| 0 <= j < i implies exists|m: int|
                0 <= m < kept@.len() && (#[trigger] kept@[m]).name@ == (#[trigger] all[j]).name by {
                if j < i - 1 {
                    let m = choose|m: int|
                        0 <= m < held.len() && (#[trigger] held[m]).name@ == (
                        #[trigger] all[j]).name;
                    assert(kept@[m] == held[m]);
                } else if seen {
                    let n = choose|n: int|
                        0 <= n < held.len() && (#[trigger] held[n]).name@ == candidate.name@;
                    assert(kept@[n] == held[n]);
                } else {
                    assert(kept@[kept@.len() - 1].name@ == all[j].name);
                }
            }
        }
    }
    proof {
        assert(all.take(i as int) =~= all);
    }
    kept
}

} // verus!
