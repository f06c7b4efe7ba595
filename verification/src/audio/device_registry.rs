//! The order input devices are offered in.
//!
//! The audio host exposes a device by name only. That is unfortunate as an identifier, but it is the one
//! handle that exists on CoreAudio, ALSA, and WASAPI alike and that survives a restart, so the name
//! doubles as the persisted id. Enumerating the host is the application's part; arranging what it
//! found is decided here.

use crate::models::device::{unavailable_device, DeviceView, InputDevice};
use crate::util::text::{chars_of, str_equal};
use vstd::multiset::Multiset;
use vstd::prelude::*;

verus! {

/// What `str::to_lowercase` gives for a text: its full Unicode lowercase mapping.
pub uninterp spec fn unicode_lowercase(text: Seq<char>) -> Seq<char>;

/// `str::to_lowercase`: the text in Unicode lowercase. The result depends on the text alone.
#[verifier::external_body]
fn lowercase(text: &str) -> (lower: String)
    ensures
        lower@ == unicode_lowercase(text@),
{
    text.to_lowercase()
}

/// `a` comes before `b` in the order strings compare in: code point by code point, a prefix first.
pub open spec fn text_less(a: Seq<char>, b: Seq<char>) -> bool
    decreases a.len(),
{
    if a.len() == 0 {
        b.len() > 0
    } else if b.len() == 0 {
        false
    } else if a[0] != b[0] {
        (a[0] as u32) < (b[0] as u32)
    } else {
        text_less(a.drop_first(), b.drop_first())
    }
}

/// Devices are offered default first, then by name without regard to case.
pub open spec fn listed_before(a: DeviceView, b: DeviceView) -> bool {
    ||| (a.is_default && !b.is_default)
    ||| (a.is_default == b.is_default && text_less(unicode_lowercase(a.name), unicode_lowercase(b.name)))
}

/// `device` placed into `sorted` after every entry it does not come before: one step of a stable sort.
pub open spec fn insert_listed(sorted: Seq<DeviceView>, device: DeviceView) -> Seq<DeviceView>
    decreases sorted.len(),
{
    if sorted.len() == 0 {
        seq![device]
    } else if listed_before(device, sorted[0]) {
        seq![device] + sorted
    } else {
        seq![sorted[0]] + insert_listed(sorted.drop_first(), device)
    }
}

/// The devices in the order they are offered, ties kept in the order they were found.
pub open spec fn listing_order(devices: Seq<DeviceView>) -> Seq<DeviceView>
    decreases devices.len(),
{
    if devices.len() == 0 {
        Seq::empty()
    } else {
        insert_listed(listing_order(devices.drop_last()), devices.last())
    }
}

/// The devices found, with the selected one appended as unavailable when the host does not offer it.
pub open spec fn with_selected(found: Seq<DeviceView>, selected_id: Option<Seq<char>>) -> Seq<DeviceView> {
    match selected_id {
        Some(id) => if exists|i: int| 0 <= i < found.len() && #[trigger] found[i].id == id {
            found
        } else {
            found.push(unavailable_device(id))
        },
        None => found,
    }
}

pub open spec fn views_of(devices: Seq<InputDevice>) -> Seq<DeviceView> {
    devices.map_values(|device: InputDevice| device@)
}

/// The text of an optional id.
pub open spec fn id_text(selected_id: Option<&str>) -> Option<Seq<char>> {
    match selected_id {
        Some(id) => Some(id@),
        None => None,
    }
}

fn text_less_exec(a: &Vec<char>, b: &Vec<char>) -> (less: bool)
    ensures
        less == text_less(a@, b@),
{
    let mut i: usize = 0;
    assert(a@.skip(0) =~= a@ && b@.skip(0) =~= b@);
    while i < a.len() && i < b.len() && a[i] == b[i]
        invariant
            i <= a@.len(),
            i <= b@.len(),
            text_less(a@, b@) == text_less(a@.skip(i as int), b@.skip(i as int)),
        decreases a@.len() - i,
    {
        assert(a@.skip(i as int).drop_first() =~= a@.skip(i + 1));
        assert(b@.skip(i as int).drop_first() =~= b@.skip(i + 1));
        i = i + 1;
    }
    if i == a.len() {
        assert(a@.skip(i as int).len() == 0);
        i < b.len()
    } else if i == b.len() {
        assert(b@.skip(i as int).len() == 0);
        false
    } else {
        assert(a@.skip(i as int)[0] == a@[i as int]);
        assert(b@.skip(i as int)[0] == b@[i as int]);
        (a[i] as u32) < (b[i] as u32)
    }
}

proof fn lemma_insert_at(sorted: Seq<DeviceView>, device: DeviceView, k: int)
    requires
        0 <= k <= sorted.len(),
        forall|j: int| 0 <= j < k ==> !listed_before(device, #[trigger] sorted[j]),
        k == sorted.len() || listed_before(device, sorted[k]),
    ensures
        insert_listed(sorted, device) == sorted.take(k) + seq![device] + sorted.skip(k),
    decreases sorted.len(),
{
    if sorted.len() == 0 {
        assert(sorted.take(k) + seq![device] + sorted.skip(k) =~= seq![device]);
    } else if k == 0 {
        assert(sorted.take(0) + seq![device] + sorted.skip(0) =~= seq![device] + sorted);
    } else {
        let rest = sorted.drop_first();
        assert forall|j: int| 0 <= j < k - 1 implies !listed_before(device, #[trigger] rest[j]) by {
            assert(rest[j] == sorted[j + 1]);
        }
        assert(k - 1 == rest.len() || rest[k - 1] == sorted[k]);
        lemma_insert_at(rest, device, k - 1);
        assert(seq![sorted[0]] + (rest.take(k - 1) + seq![device] + rest.skip(k - 1)) =~= sorted.take(k)
            + seq![device] + sorted.skip(k));
    }
}

/// Default devices come before every other one.
pub open spec fn defaults_first(devices: Seq<DeviceView>) -> bool {
    forall|i: int, j: int|
        0 <= i < j < devices.len() && #[trigger] devices[j].is_default ==> #[trigger] devices[i].is_default
}

proof fn lemma_single_to_multiset(device: DeviceView)
    ensures
        seq![device].to_multiset() =~= Multiset::<DeviceView>::empty().insert(device),
{
    broadcast use vstd::multiset::group_multiset_axioms;
    broadcast use vstd::seq_lib::group_to_multiset_ensures;

    let none = Seq::<DeviceView>::empty();
    assert forall|x: DeviceView| none.to_multiset().count(x) == 0 by {
        assert(!none.contains(x));
    }
    assert(none.to_multiset() =~= Multiset::<DeviceView>::empty());
    assert(seq![device] =~= none.push(device));
}

proof fn lemma_insert_keeps_defaults_first(sorted: Seq<DeviceView>, device: DeviceView)
    requires
        defaults_first(sorted),
    ensures
        defaults_first(insert_listed(sorted, device)),
        insert_listed(sorted, device).to_multiset() == sorted.to_multiset().insert(device),
    decreases sorted.len(),
{
    broadcast use vstd::multiset::group_multiset_axioms;

    let inserted = insert_listed(sorted, device);
    lemma_single_to_multiset(device);
    if sorted.len() == 0 {
        vstd::seq_lib::lemma_multiset_commutative(seq![device], sorted);
        assert(seq![device] + sorted =~= seq![device]);
        assert(sorted.to_multiset().len() == 0) by {
            sorted.to_multiset_ensures();
        }
        assert(sorted.to_multiset() =~= Multiset::<DeviceView>::empty());
    } else if listed_before(device, sorted[0]) {
        vstd::seq_lib::lemma_multiset_commutative(seq![device], sorted);
        assert forall|i: int, j: int|
            0 <= i < j < inserted.len() && #[trigger] inserted[j].is_default implies #[trigger] inserted[i].is_default by {
            if i > 0 {
                assert(inserted[i] == sorted[i - 1] && inserted[j] == sorted[j - 1]);
            } else {
                assert(inserted[j] == sorted[j - 1]);
                if j - 1 > 0 {
                    assert(sorted[j - 1].is_default ==> sorted[0].is_default);
                }
            }
        }
    } else {
        let rest = sorted.drop_first();
        assert forall|i: int, j: int|
            0 <= i < j < rest.len() && #[trigger] rest[j].is_default implies #[trigger] rest[i].is_default by {
            assert(rest[i] == sorted[i + 1] && rest[j] == sorted[j + 1]);
        }
        lemma_insert_keeps_defaults_first(rest, device);
        let tail = insert_listed(rest, device);
        assert(inserted == seq![sorted[0]] + tail);
        vstd::seq_lib::lemma_multiset_commutative(seq![sorted[0]], tail);
        vstd::seq_lib::lemma_multiset_commutative(seq![sorted[0]], rest);
        assert(sorted =~= seq![sorted[0]] + rest);
        lemma_single_to_multiset(sorted[0]);
        assert(inserted.to_multiset() =~= sorted.to_multiset().insert(device));
        assert forall|i: int, j: int|
            0 <= i < j < inserted.len() && #[trigger] inserted[j].is_default implies #[trigger] inserted[i].is_default by {
            if i > 0 {
                assert(inserted[i] == tail[i - 1] && inserted[j] == tail[j - 1]);
            } else {
                assert(inserted[j] == tail[j - 1]);
                // The device passed the first entry, so a default device found a default one there.
                if tail[j - 1] == device {
                    assert(device.is_default ==> sorted[0].is_default);
                } else {
                    tail.to_multiset_ensures();
                    rest.to_multiset_ensures();
                    assert(tail.contains(tail[j - 1]));
                    assert(tail.to_multiset().count(tail[j - 1]) > 0);
                    assert(rest.to_multiset().count(tail[j - 1]) > 0);
                    assert(rest.contains(tail[j - 1]));
                    let k = choose|k: int| 0 <= k < rest.len() && rest[k] == tail[j - 1];
                    assert(sorted[k + 1] == rest[k]);
                }
            }
        }
    }
}

/// The devices are offered default first, and each one found is offered exactly once: the listing is
/// a reordering of what it was made from.
pub proof fn lemma_listing_is_a_reordering_with_defaults_first(devices: Seq<DeviceView>)
    ensures
        defaults_first(listing_order(devices)),
        listing_order(devices).to_multiset() == devices.to_multiset(),
        listing_order(devices).len() == devices.len(),
    decreases devices.len(),
{
    broadcast use vstd::multiset::group_multiset_axioms;

    if devices.len() == 0 {
        assert(listing_order(devices) =~= devices);
    } else {
        lemma_listing_is_a_reordering_with_defaults_first(devices.drop_last());
        lemma_insert_keeps_defaults_first(listing_order(devices.drop_last()), devices.last());
        assert(devices =~= devices.drop_last().push(devices.last()));
        vstd::seq_lib::to_multiset_build(devices.drop_last(), devices.last());
        listing_order(devices).to_multiset_ensures();
        devices.to_multiset_ensures();
    }
}

/// A device together with its name in lowercase, the key it is ordered by.
struct Keyed {
    device: InputDevice,
    lower: Vec<char>,
}

spec fn keyed_ok(entry: Keyed) -> bool {
    entry.lower@ == unicode_lowercase(entry.device.name@)
}

spec fn keyed_views(entries: Seq<Keyed>) -> Seq<DeviceView> {
    entries.map_values(|entry: Keyed| entry.device@)
}

fn keyed_before(a: &Keyed, b: &Keyed) -> (before: bool)
    requires
        keyed_ok(*a),
        keyed_ok(*b),
    ensures
        before == listed_before(a.device@, b.device@),
{
    if a.device.is_default != b.device.is_default {
        a.device.is_default
    } else {
        text_less_exec(&a.lower, &b.lower)
    }
}

fn keyed(device: InputDevice) -> (entry: Keyed)
    ensures
        entry.device == device,
        keyed_ok(entry),
{
    let lower = lowercase(device.name.as_str());
    let lower = chars_of(lower.as_str());
    Keyed { device, lower }
}

/// Enumerates and arranges host input devices.
pub struct DeviceRegistry;

impl DeviceRegistry {
    /// Every input the host offers, with `selected_id` appended as an unavailable entry when it is not
    /// among them, so the UI can say the configured microphone is unplugged; default first, then by name
    /// regardless of case, ties in the order found.
    pub fn arrange(found: Vec<InputDevice>, selected_id: Option<&str>) -> (listed: Vec<InputDevice>)
        ensures
            views_of(listed@) == listing_order(with_selected(views_of(found@), id_text(selected_id))),
    {
        let ghost found_views = views_of(found@);
        let mut devices = found;
        if let Some(selected) = selected_id {
            let mut present = false;
            let mut i: usize = 0;
            while i < devices.len()
                invariant
                    i <= devices@.len(),
                    devices@ == found@,
                    found_views == views_of(found@),
                    present == exists|j: int| 0 <= j < i && #[trigger] found_views[j].id == selected@,
                decreases devices@.len() - i,
            {
                let same = str_equal(devices[i].id.as_str(), selected);
                proof {
                    assert(found_views[i as int] == devices@[i as int]@);
                    if same {
                        assert(found_views[i as int].id == selected@);
                    } else {
                        assert(found_views[i as int].id != selected@);
                    }
                    if present {
                        let j = choose|j: int| 0 <= j < i && #[trigger] found_views[j].id == selected@;
                        assert(0 <= j < i + 1 && found_views[j].id == selected@);
                    }
                }
                if same {
                    present = true;
                }
                i = i + 1;
            }
            if !present {
                devices.push(InputDevice::unavailable(selected));
                assert(views_of(devices@) =~= found_views.push(unavailable_device(selected@)));
            } else {
                assert(views_of(devices@) =~= found_views);
            }
        } else {
            assert(views_of(devices@) =~= found_views);
        }
        let ghost input = views_of(devices@);
        assert(input == with_selected(found_views, id_text(selected_id)));
        let total = devices.len();
        let mut sorted: Vec<Keyed> = Vec::new();
        let mut k: usize = 0;
        assert(input.skip(0) =~= input);
        assert(input.take(0) =~= Seq::<DeviceView>::empty());
        while devices.len() > 0
            invariant
                k + devices@.len() == total,
                input.len() == total,
                views_of(devices@) == input.skip(k as int),
                forall|j: int| 0 <= j < sorted@.len() ==> #[trigger] keyed_ok(sorted@[j]),
                keyed_views(sorted@) == listing_order(input.take(k as int)),
                sorted@.len() == k,
            decreases devices@.len(),
        {
            let ghost remaining = devices@;
            let device = devices.remove(0);
            proof {
                assert(views_of(remaining)[0] == remaining[0]@);
                assert(input.skip(k as int)[0] == input[k as int]);
                assert(device@ == input[k as int]);
                assert(devices@ =~= remaining.drop_first());
                assert forall|j: int| 0 <= j < devices@.len() implies #[trigger] views_of(devices@)[j]
                    == input.skip(k + 1)[j] by {
                    assert(views_of(devices@)[j] == devices@[j]@);
                    assert(devices@[j] == remaining[j + 1]);
                    assert(views_of(remaining)[j + 1] == remaining[j + 1]@);
                    assert(input.skip(k as int)[j + 1] == input[k + 1 + j]);
                }
                assert(views_of(devices@) =~= input.skip(k + 1));
            }
            let entry = keyed(device);
            let mut p: usize = 0;
            while p < sorted.len() && !keyed_before(&entry, &sorted[p])
                invariant
                    p <= sorted@.len(),
                    keyed_ok(entry),
                    forall|j: int| 0 <= j < sorted@.len() ==> #[trigger] keyed_ok(sorted@[j]),
                    forall|j: int|
                        0 <= j < p ==> !listed_before(
                            entry.device@,
                            #[trigger] keyed_views(sorted@)[j],
                        ),
                decreases sorted@.len() - p,
            {
                assert(keyed_views(sorted@)[p as int] == sorted@[p as int].device@);
                p = p + 1;
            }
            proof {
                let before = keyed_views(sorted@);
                if p < sorted@.len() {
                    assert(before[p as int] == sorted@[p as int].device@);
                }
                lemma_insert_at(before, entry.device@, p as int);
                assert(input.take(k + 1).drop_last() =~= input.take(k as int));
                assert(input.take(k + 1).last() == input[k as int]);
            }
            let ghost old_sorted = sorted@;
            sorted.insert(p, entry);
            proof {
                assert(keyed_views(sorted@) =~= keyed_views(old_sorted).take(p as int) + seq![
                    entry.device@,
                ] + keyed_views(old_sorted).skip(p as int));
                assert forall|j: int| 0 <= j < sorted@.len() implies #[trigger] keyed_ok(sorted@[j]) by {
                    if j < p {
                        assert(sorted@[j] == old_sorted[j]);
                    } else if j > p {
                        assert(sorted@[j] == old_sorted[j - 1]);
                    }
                }
            }
            k = k + 1;
        }
        assert(input.take(total as int) =~= input);
        let mut listed: Vec<InputDevice> = Vec::new();
        let ghost arranged = keyed_views(sorted@);
        let mut m: usize = 0;
        while sorted.len() > 0
            invariant
                m + sorted@.len() == arranged.len(),
                arranged.len() == total,
                keyed_views(sorted@) == arranged.skip(m as int),
                views_of(listed@) == arranged.take(m as int),
            decreases sorted@.len(),
        {
            let ghost remaining = sorted@;
            let entry = sorted.remove(0);
            proof {
                assert(keyed_views(remaining)[0] == remaining[0].device@);
                assert(arranged.skip(m as int)[0] == arranged[m as int]);
                assert(entry.device@ == arranged[m as int]);
                assert(sorted@ =~= remaining.drop_first());
            }
            let ghost before_push = listed@;
            assert(before_push.len() == m) by {
                assert(views_of(before_push).len() == before_push.len());
                assert(arranged.take(m as int).len() == m);
            }
            listed.push(entry.device);
            proof {
                assert forall|j: int| 0 <= j < sorted@.len() implies #[trigger] keyed_views(sorted@)[j]
                    == arranged.skip(m + 1)[j] by {
                    assert(keyed_views(sorted@)[j] == sorted@[j].device@);
                    assert(sorted@[j] == remaining[j + 1]);
                    assert(keyed_views(remaining)[j + 1] == remaining[j + 1].device@);
                    assert(arranged.skip(m as int)[j + 1] == arranged[m + 1 + j]);
                }
                assert(keyed_views(sorted@) =~= arranged.skip(m + 1));
                assert forall|j: int| 0 <= j < listed@.len() implies #[trigger] views_of(listed@)[j]
                    == arranged.take(m + 1)[j] by {
                    assert(views_of(listed@)[j] == listed@[j]@);
                    if j < m {
                        assert(listed@[j] == before_push[j]);
                        assert(views_of(before_push)[j] == before_push[j]@);
                    }
                }
                assert(views_of(listed@) =~= arranged.take(m + 1));
            }
            m = m + 1;
        }
        assert(arranged.take(m as int) =~= arranged);
        listed
    }
}

} // verus!
