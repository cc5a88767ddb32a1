//! Devices: which target is there, and under what name.

use vstd::prelude::*;

use crate::app_routing::profile_apps::{name_of_device, target_known, RouteTargetView};
use crate::app_routing::DeviceListView;
use crate::laws::text::only_ascii_case_is_overlooked;
use crate::laws::{is_device_of, is_list_name, is_there, same_but_case};

verus! {

/// A target is known exactly where some device of the list, whichever, has its
/// identifier or its name, up to the case of ASCII letters.
pub proof fn targets_are_known_by_identifier_or_name(
    devices: DeviceListView,
    target: RouteTargetView,
)
    ensures
        target_known(devices, target) <==> is_there(devices, target),
        forall|i: int|
            0 <= i < devices.len() && same_but_case((#[trigger] devices[i]).0, target.device_id)
                ==> target_known(devices, target),
        forall|i: int|
            0 <= i < devices.len() && target.device_name is Some && same_but_case(
                (#[trigger] devices[i]).1,
                target.device_name->Some_0,
            ) ==> target_known(devices, target),
{
    assert forall|i: int| 0 <= i < devices.len() && is_device_of(#[trigger] devices[i], target)
        implies target_known(devices, target) by {
        only_ascii_case_is_overlooked(devices[i].0, target.device_id);
        if target.device_name is Some {
            only_ascii_case_is_overlooked(devices[i].1, target.device_name->Some_0);
        }
    }
    if target_known(devices, target) {
        let i = choose|i: int|
            0 <= i < devices.len() && (crate::text::eq_ascii_fold(
                (#[trigger] devices[i]).0,
                target.device_id,
            ) || (target.device_name is Some && crate::text::eq_ascii_fold(
                devices[i].1,
                target.device_name->Some_0,
            )));
        only_ascii_case_is_overlooked(devices[i].0, target.device_id);
        if target.device_name is Some {
            only_ascii_case_is_overlooked(devices[i].1, target.device_name->Some_0);
        }
        assert(is_device_of(devices[i], target));
    }
    assert forall|i: int|
        0 <= i < devices.len() && same_but_case(
            (#[trigger] devices[i]).0,
            target.device_id,
        ) implies target_known(devices, target) by {
        assert(is_device_of(devices[i], target));
    }
    assert forall|i: int|
        0 <= i < devices.len() && target.device_name is Some && same_but_case(
            (#[trigger] devices[i]).1,
            target.device_name->Some_0,
        ) implies target_known(devices, target) by {
        assert(is_device_of(devices[i], target));
    }
}

/// Whether a target is known does not depend on the order of the devices, nor
/// on how often one is listed.
pub proof fn order_of_devices_does_not_count(
    devices: DeviceListView,
    others: DeviceListView,
    target: RouteTargetView,
)
    requires
        forall|d: (Seq<char>, Seq<char>)| devices.contains(d) <==> others.contains(d),
    ensures
        target_known(devices, target) == target_known(others, target),
{
    targets_are_known_by_identifier_or_name(devices, target);
    targets_are_known_by_identifier_or_name(others, target);
    if is_there(devices, target) {
        let i = choose|i: int| 0 <= i < devices.len() && is_device_of(#[trigger] devices[i], target);
        assert(devices.contains(devices[i]));
        let j = choose|j: int| 0 <= j < others.len() && others[j] == devices[i];
        assert(is_device_of(others[j], target));
    }
    if is_there(others, target) {
        let i = choose|i: int| 0 <= i < others.len() && is_device_of(#[trigger] others[i], target);
        assert(others.contains(others[i]));
        let j = choose|j: int| 0 <= j < devices.len() && devices[j] == others[i];
        assert(is_device_of(devices[j], target));
    }
}

/// A device has the name of the first device of the list with its identifier,
/// and none where there is no such device.
pub proof fn devices_have_the_name_of_the_list(devices: DeviceListView, id: Seq<char>)
    ensures
        forall|i: int|
            0 <= i < devices.len() && same_but_case((#[trigger] devices[i]).0, id) && (forall|
                j: int,
            |
                0 <= j < i ==> !same_but_case((#[trigger] devices[j]).0, id)) ==> name_of_device(
                devices,
                id,
            ) == Some(devices[i].1),
        (forall|j: int| 0 <= j < devices.len() ==> !same_but_case((#[trigger] devices[j]).0, id))
            ==> name_of_device(devices, id) is None,
    decreases devices.len(),
{
    if devices.len() > 0 {
        only_ascii_case_is_overlooked(devices[0].0, id);
        let rest = devices.skip(1);
        devices_have_the_name_of_the_list(rest, id);
        assert forall|i: int|
            0 <= i < devices.len() && same_but_case((#[trigger] devices[i]).0, id) && (forall|
                j: int,
            |
                0 <= j < i ==> !same_but_case(
                    (#[trigger] devices[j]).0,
                    id,
                )) implies name_of_device(devices, id) == Some(devices[i].1) by {
            if i > 0 {
                assert(!same_but_case(devices[0].0, id));
                assert(rest[i - 1] == devices[i]);
                assert forall|j: int| 0 <= j < i - 1 implies !same_but_case(
                    (#[trigger] rest[j]).0,
                    id,
                ) by {
                    assert(rest[j] == devices[j + 1]);
                }
            }
        }
        if forall|j: int| 0 <= j < devices.len() ==> !same_but_case((#[trigger] devices[j]).0, id) {
            assert(!same_but_case(devices[0].0, id));
            assert forall|j: int| 0 <= j < rest.len() implies !same_but_case(
                (#[trigger] rest[j]).0,
                id,
            ) by {
                assert(rest[j] == devices[j + 1]);
            }
        }
    }
}

/// The name that is found for a device is the one that the list gives it.
pub proof fn found_names_are_list_names(devices: DeviceListView, id: Seq<char>)
    ensures
        is_list_name(devices, id, name_of_device(devices, id)),
    decreases devices.len(),
{
    if devices.len() > 0 {
        only_ascii_case_is_overlooked(devices[0].0, id);
        let rest = devices.skip(1);
        found_names_are_list_names(rest, id);
        if !same_but_case(devices[0].0, id) {
            match name_of_device(rest, id) {
                Some(name) => {
                    let i = choose|i: int|
                        0 <= i < rest.len() && same_but_case((#[trigger] rest[i]).0, id)
                            && rest[i].1 == name && forall|j: int|
                            0 <= j < i ==> !same_but_case((#[trigger] rest[j]).0, id);
                    assert(devices[i + 1] == rest[i]);
                    assert forall|j: int| 0 <= j < i + 1 implies !same_but_case(
                        (#[trigger] devices[j]).0,
                        id,
                    ) by {
                        if j > 0 {
                            assert(rest[j - 1] == devices[j]);
                        }
                    }
                },
                None => {
                    assert forall|j: int| 0 <= j < devices.len() implies !same_but_case(
                        (#[trigger] devices[j]).0,
                        id,
                    ) by {
                        if j > 0 {
                            assert(rest[j - 1] == devices[j]);
                        }
                    }
                },
            }
        }
    }
}

} // verus!
