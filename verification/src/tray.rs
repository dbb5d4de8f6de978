//! The menu of the tray application: a checkbox for each receiver, and lines with the statistics of
//! the sender that runs.

use crate::stream::StreamStats;
use vstd::prelude::*;
use vstd::string::StringExecFns;

verus! {

/// A receiver in the menu.
#[derive(Debug, Clone)]
pub struct Checkbox {
    pub name: String,
    pub addr: String,
    /// What the menu knows the checkbox by.
    pub id: String,
    /// Whether the checkbox is checked.
    pub checked: bool,
}

/// The lines with statistics.
#[derive(Debug, Clone)]
pub struct StatMenuItems {
    pub status: String,
    pub sample_rate: String,
    pub buffer_size: String,
    pub bitrate: String,
}

impl StatMenuItems {
    /// Whether the lines are those of no connection.
    pub open spec fn is_clear(self) -> bool {
        &&& self.status@ == "Status: Not connected"@
        &&& self.sample_rate@ == "Sample rate: N/A"@
        &&& self.buffer_size@ == "Buffer size: N/A"@
        &&& self.bitrate@ == "Bitrate: N/A"@
    }

    /// The lines before there is any connection.
    pub fn new() -> (items: Self)
        ensures
            items.is_clear(),
            items.status@ == "Status: Not connected"@,
            items.sample_rate@ == "Sample rate: N/A"@,
            items.buffer_size@ == "Buffer size: N/A"@,
            items.bitrate@ == "Bitrate: N/A"@,
    {
        StatMenuItems {
            status: "Status: Not connected".to_owned(),
            sample_rate: "Sample rate: N/A".to_owned(),
            buffer_size: "Buffer size: N/A".to_owned(),
            bitrate: "Bitrate: N/A".to_owned(),
        }
    }

    /// Sets the lines to those of no connection.
    pub fn clear(&mut self)
        ensures
            final(self).is_clear(),
            final(self).status@ == "Status: Not connected"@,
            final(self).sample_rate@ == "Sample rate: N/A"@,
            final(self).buffer_size@ == "Buffer size: N/A"@,
            final(self).bitrate@ == "Bitrate: N/A"@,
    {
        self.status = "Status: Not connected".to_owned();
        self.sample_rate = "Sample rate: N/A".to_owned();
        self.buffer_size = "Buffer size: N/A".to_owned();
        self.bitrate = "Bitrate: N/A".to_owned();
    }

    /// Sets the lines to the statistics; the status stays as it is.
    pub fn show(&mut self, stats: &StreamStats)
        ensures
            final(self).status == old(self).status,
            final(self).sample_rate@ == "Sample rate: "@ + stats.sample_rate@ + " Hz"@,
            final(self).buffer_size@ == "Buffer size: "@ + stats.buffer_size@ + " samples/buffer"@,
            final(self).bitrate@ == "Bitrate: "@ + stats.bitrate@ + " kbps"@,
    {
        self.sample_rate = labelled("Sample rate: ", stats.sample_rate.as_str(), " Hz");
        self.buffer_size = labelled("Buffer size: ", stats.buffer_size.as_str(), " samples/buffer");
        self.bitrate = labelled("Bitrate: ", stats.bitrate.as_str(), " kbps");
    }
}

fn labelled(label: &str, value: &str, unit: &str) -> (text: String)
    ensures
        text@ == label@ + value@ + unit@,
{
    let mut text = label.to_owned();
    text.append(value);
    text.append(unit);
    text
}

/// Whether the checkbox at an index is the first with an id.
pub open spec fn is_first_with_id(items: Seq<Checkbox>, id: Seq<char>, index: int) -> bool {
    &&& 0 <= index < items.len()
    &&& items[index].id@ == id
    &&& forall|i: int| 0 <= i < index ==> (#[trigger] items[i]).id@ != id
}

/// Whether a checkbox has an id.
pub open spec fn has_id(items: Seq<Checkbox>, id: Seq<char>) -> bool {
    exists|i: int| 0 <= i < items.len() && (#[trigger] items[i]).id@ == id
}

/// Whether the checkbox at an index is the first with a name.
pub open spec fn is_first_with_name(items: Seq<Checkbox>, name: Seq<char>, index: int) -> bool {
    &&& 0 <= index < items.len()
    &&& items[index].name@ == name
    &&& forall|i: int| 0 <= i < index ==> (#[trigger] items[i]).name@ != name
}

/// Whether a checkbox has a name.
pub open spec fn has_name(items: Seq<Checkbox>, name: Seq<char>) -> bool {
    exists|i: int| 0 <= i < items.len() && (#[trigger] items[i]).name@ == name
}

/// The ids other than one, in the order of the checkboxes.
pub open spec fn other_ids(items: Seq<Checkbox>, id: Seq<char>) -> Seq<Seq<char>>
    decreases items.len(),
{
    if items.len() == 0 {
        seq![]
    } else {
        let others = other_ids(items.drop_last(), id);
        if items.last().id@ == id {
            others
        } else {
            others.push(items.last().id@)
        }
    }
}

/// What is to be done after a click in the menu.
#[derive(Debug)]
pub struct ClickPlan {
    /// End the sender that runs.
    pub kill: bool,
    /// The checkbox that was clicked.
    pub clicked: Option<usize>,
    /// Remove the checks of these checkboxes.
    pub uncheck: Vec<String>,
    /// Start a sender to this address.
    pub connect: Option<String>,
}

/// What is to be done after a receiver was lost.
#[derive(Debug)]
pub struct LossPlan {
    /// End the sender that runs.
    pub kill: bool,
    /// The checkbox of the receiver.
    pub lost: Option<usize>,
}

/// A checkbox that is to be put into the menu.
#[derive(Debug)]
pub struct NewCheckbox {
    /// The text of the checkbox.
    pub text: String,
    /// Whether it can be clicked.
    pub enabled: bool,
    /// Whether it is checked.
    pub checked: bool,
    /// Its place in the menu, counted from the top.
    pub position: usize,
}

/// What stands in the menu.
pub enum MenuEntry {
    /// The checkbox of a receiver: its name, and whether it is checked.
    Receiver(Seq<char>, bool),
    /// A separator.
    Separator,
    /// A line of text.
    Line(Seq<char>),
}

/// The checkboxes as they stand in the menu: the receiver that was found last is on top.
pub open spec fn menu_boxes(items: Seq<Checkbox>) -> Seq<MenuEntry> {
    Seq::new(
        items.len(),
        |i: int|
            MenuEntry::Receiver(
                items[items.len() - 1 - i].name@,
                items[items.len() - 1 - i].checked,
            ),
    )
}

/// The lines with statistics as they stand in the menu, below a separator.
pub open spec fn menu_lines(lines: StatMenuItems) -> Seq<MenuEntry> {
    seq![
        MenuEntry::Separator,
        MenuEntry::Line(lines.status@),
        MenuEntry::Line(lines.sample_rate@),
        MenuEntry::Line(lines.buffer_size@),
        MenuEntry::Line(lines.bitrate@),
    ]
}

/// The checkboxes after a click on the one at an index, which is `checked` now: those with other ids
/// lose their checks.
pub open spec fn after_click(
    items: Seq<Checkbox>,
    index: int,
    id: Seq<char>,
    checked: bool,
) -> Seq<Checkbox> {
    Seq::new(
        items.len(),
        |i: int|
            Checkbox {
                checked: if i == index {
                    checked
                } else if items[i].id@ != id {
                    false
                } else {
                    items[i].checked
                },
                ..items[i]
            },
    )
}

/// The state of the menu.
pub struct Tray {
    items: Vec<Checkbox>,
    streaming: bool,
    stats: StatMenuItems,
}

impl Tray {
    /// The checkboxes, in the order in which the receivers were found.
    pub closed spec fn boxes(self) -> Seq<Checkbox> {
        self.items@
    }

    /// Whether a sender runs.
    pub closed spec fn is_streaming(self) -> bool {
        self.streaming
    }

    /// The lines with statistics.
    pub closed spec fn lines(self) -> StatMenuItems {
        self.stats
    }

    /// What stands in the menu, from top to bottom.
    pub open spec fn menu(self) -> Seq<MenuEntry> {
        menu_boxes(self.boxes()) + menu_lines(self.lines())
    }

    /// The status says whether a sender runs.
    pub open spec fn wf(self) -> bool {
        &&& self.is_streaming() ==> self.lines().status@ == "Status: Active"@
        &&& !self.is_streaming() ==> self.lines().status@ == "Status: Not connected"@
    }

    /// A menu without receivers.
    pub fn setup() -> (tray: Self)
        ensures
            tray.wf(),
            tray.boxes() == Seq::<Checkbox>::empty(),
            !tray.is_streaming(),
            tray.lines().is_clear(),
            tray.menu() == menu_lines(tray.lines()),
    {
        let tray = Tray { items: Vec::new(), streaming: false, stats: StatMenuItems::new() };
        assert(tray.menu() =~= menu_lines(tray.lines()));
        tray
    }

    /// The lines with statistics.
    pub fn stats(&self) -> (stats: &StatMenuItems)
        ensures
            *stats == self.lines(),
    {
        &self.stats
    }

    /// The first checkbox with an id.
    pub fn find_id(&self, id: &String) -> (index: Option<usize>)
        ensures
            has_id(self.boxes(), id@) ==> index is Some && is_first_with_id(
                self.boxes(),
                id@,
                index->Some_0 as int,
            ),
            !has_id(self.boxes(), id@) ==> index is None,
    {
        let mut i: usize = 0;
        while i < self.items.len()
            invariant
                i <= self.items@.len(),
                forall|j: int| 0 <= j < i ==> (#[trigger] self.items@[j]).id@ != id@,
            decreases self.items@.len() - i,
        {
            if self.items[i].id == *id {
                assert(self.boxes()[i as int].id@ == id@);
                return Some(i);
            }
            i += 1;
        }
        None
    }

    /// The first checkbox with a name.
    pub fn find_name(&self, name: &String) -> (index: Option<usize>)
        ensures
            has_name(self.boxes(), name@) ==> index is Some && is_first_with_name(
                self.boxes(),
                name@,
                index->Some_0 as int,
            ),
            !has_name(self.boxes(), name@) ==> index is None,
    {
        let mut i: usize = 0;
        while i < self.items.len()
            invariant
                i <= self.items@.len(),
                forall|j: int| 0 <= j < i ==> (#[trigger] self.items@[j]).name@ != name@,
            decreases self.items@.len() - i,
        {
            if self.items[i].name == *name {
                assert(self.boxes()[i as int].name@ == name@);
                return Some(i);
            }
            i += 1;
        }
        None
    }

    /// A click in the menu. `checked` says whether the checkbox that was clicked is checked now. A
    /// sender that runs is ended in any case. Where a checkbox was clicked all others lose their
    /// checks, and where it is checked a sender to its receiver is to be started.
    pub fn on_menu_event(&mut self, id: &String, checked: bool) -> (plan: ClickPlan)
        requires
            old(self).wf(),
        ensures
            final(self).wf(),
            !final(self).is_streaming(),
            plan.kill == old(self).is_streaming(),
            old(self).is_streaming() ==> final(self).lines().is_clear(),
            !old(self).is_streaming() ==> final(self).lines() == old(self).lines(),
            !has_id(old(self).boxes(), id@) ==> {
                &&& final(self).boxes() == old(self).boxes()
                &&& plan.clicked is None
                &&& plan.uncheck@ == Seq::<String>::empty()
                &&& plan.connect is None
            },
            has_id(old(self).boxes(), id@) ==> {
                &&& plan.clicked is Some
                &&& is_first_with_id(old(self).boxes(), id@, plan.clicked->Some_0 as int)
                &&& final(self).boxes() == after_click(
                    old(self).boxes(),
                    plan.clicked->Some_0 as int,
                    id@,
                    checked,
                )
                &&& crate::stream::texts(plan.uncheck@) == other_ids(old(self).boxes(), id@)
                &&& checked ==> plan.connect == Some(
                    old(self).boxes()[plan.clicked->Some_0 as int].addr,
                )
                &&& !checked ==> plan.connect is None
            },
    {
        let kill: bool = self.streaming;
        if kill {
            self.streaming = false;
            self.stats.clear();
        }
        let ghost stats = self.stats;
        let clicked = self.find_id(id);
        let mut uncheck: Vec<String> = Vec::new();
        let mut connect: Option<String> = None;
        if let Some(index) = clicked {
            let mut i: usize = 0;
            let ghost boxes = self.items@;
            while i < self.items.len()
                invariant
                    boxes.len() == self.items@.len(),
                    index < boxes.len(),
                    boxes[index as int].id@ == id@,
                    i <= boxes.len(),
                    !self.streaming,
                    self.stats == stats,
                    forall|j: int|
                        0 <= j < i ==> #[trigger] self.items@[j] == after_click(
                            boxes,
                            index as int,
                            id@,
                            checked,
                        )[j],
                    forall|j: int| i <= j < boxes.len() ==> #[trigger] self.items@[j] == boxes[j],
                    crate::stream::texts(uncheck@) == other_ids(boxes.take(i as int), id@),
                decreases boxes.len() - i,
            {
                let ghost before = uncheck@;
                if i == index {
                    self.items[i].checked = checked;
                } else if self.items[i].id != *id {
                    uncheck.push(self.items[i].id.clone());
                    self.items[i].checked = false;
                    assert(crate::stream::texts(uncheck@) =~= crate::stream::texts(before).push(
                        boxes[i as int].id@,
                    ));
                }
                i += 1;
                assert(boxes.take(i as int).drop_last() =~= boxes.take(i - 1));
            }
            assert(boxes.take(i as int) =~= boxes);
            assert(self.items@ =~= after_click(boxes, index as int, id@, checked));
            if checked {
                connect = Some(self.items[index].addr.clone());
            }
        }
        ClickPlan { kill, clicked, uncheck, connect }
    }

    /// A sender was started.
    pub fn on_connected(&mut self)
        requires
            old(self).wf(),
        ensures
            final(self).wf(),
            final(self).boxes() == old(self).boxes(),
            final(self).is_streaming(),
            final(self).lines().status@ == "Status: Active"@,
            final(self).lines().sample_rate == old(self).lines().sample_rate,
            final(self).lines().buffer_size == old(self).lines().buffer_size,
            final(self).lines().bitrate == old(self).lines().bitrate,
    {
        self.streaming = true;
        self.stats.status = "Status: Active".to_owned();
    }

    /// A sender reported statistics.
    pub fn on_stats(&mut self, stats: &StreamStats)
        requires
            old(self).wf(),
        ensures
            final(self).wf(),
            final(self).boxes() == old(self).boxes(),
            final(self).is_streaming() == old(self).is_streaming(),
            final(self).lines().status == old(self).lines().status,
            final(self).lines().sample_rate@ == "Sample rate: "@ + stats.sample_rate@ + " Hz"@,
            final(self).lines().buffer_size@ == "Buffer size: "@ + stats.buffer_size@
                + " samples/buffer"@,
            final(self).lines().bitrate@ == "Bitrate: "@ + stats.bitrate@ + " kbps"@,
    {
        self.stats.show(stats);
    }

    /// The checkbox for a receiver that was found: on top of the menu, and not checked.
    pub fn new_checkbox(name: &String) -> (checkbox: NewCheckbox)
        ensures
            checkbox.text == *name,
            checkbox.enabled,
            !checkbox.checked,
            checkbox.position == 0,
    {
        NewCheckbox { text: name.clone(), enabled: true, checked: false, position: 0 }
    }

    /// A receiver was found, and a checkbox was put into the menu for it.
    pub fn on_discovered(&mut self, name: String, addr: String, id: String)
        requires
            old(self).wf(),
        ensures
            final(self).wf(),
            final(self).boxes() == old(self).boxes().push(
                Checkbox { name, addr, id, checked: false },
            ),
            final(self).menu() == seq![MenuEntry::Receiver(name@, false)] + old(self).menu(),
            final(self).is_streaming() == old(self).is_streaming(),
            final(self).lines() == old(self).lines(),
    {
        let ghost text = name@;
        self.items.push(Checkbox { name, addr, id, checked: false });
        assert(self.menu() =~= seq![MenuEntry::Receiver(text, false)] + old(self).menu());
    }

    /// A receiver was lost. `checked` says whether its checkbox is checked: where it is, it is the
    /// one that is playing, and the sender is to be ended. `removed` says whether the checkbox is
    /// gone from the menu: where it is not, it stays listed.
    pub fn on_lost(&mut self, name: &String, checked: bool, removed: bool) -> (plan: LossPlan)
        requires
            old(self).wf(),
        ensures
            final(self).wf(),
            !has_name(old(self).boxes(), name@) ==> {
                &&& *final(self) == *old(self)
                &&& plan.lost is None
                &&& !plan.kill
            },
            has_name(old(self).boxes(), name@) ==> {
                &&& plan.lost is Some
                &&& is_first_with_name(old(self).boxes(), name@, plan.lost->Some_0 as int)
                &&& removed ==> final(self).boxes() == old(self).boxes().remove(
                    plan.lost->Some_0 as int,
                )
                &&& !removed ==> final(self).boxes() == old(self).boxes()
                &&& plan.kill == (checked && old(self).is_streaming())
                &&& plan.kill ==> !final(self).is_streaming() && final(self).lines().is_clear()
                &&& !plan.kill ==> final(self).is_streaming() == old(self).is_streaming()
                    && final(self).lines() == old(self).lines()
            },
    {
        match self.find_name(name) {
            Some(index) => {
                let kill: bool = checked && self.streaming;
                if kill {
                    self.streaming = false;
                    self.stats.clear();
                }
                if removed {
                    let _ = self.items.remove(index);
                }
                LossPlan { kill, lost: Some(index) }
            },
            None => LossPlan { kill: false, lost: None },
        }
    }
}

/// After a click at most the clicked checkbox keeps its check: every other id is to be unchecked.
pub proof fn law_click_unchecks_all_others(items: Seq<Checkbox>, id: Seq<char>)
    ensures
        forall|i: int|
            0 <= i < items.len() && (#[trigger] items[i]).id@ != id ==> other_ids(
                items,
                id,
            ).contains(items[i].id@),
        !other_ids(items, id).contains(id),
    decreases items.len(),
{
    if items.len() > 0 {
        let rest = items.drop_last();
        let others = other_ids(rest, id);
        law_click_unchecks_all_others(rest, id);
        assert forall|i: int| 0 <= i < items.len() && (#[trigger] items[i]).id@ != id implies other_ids(
            items,
            id,
        ).contains(items[i].id@) by {
            if i < rest.len() {
                assert(rest[i].id@ != id);
                let k = choose|k: int| 0 <= k < others.len() && others[k] == rest[i].id@;
                assert(other_ids(items, id)[k] == items[i].id@);
            } else {
                assert(other_ids(items, id)[others.len() as int] == items[i].id@);
            }
        }
        assert forall|k: int| 0 <= k < other_ids(items, id).len() implies other_ids(items, id)[k]
            != id by {
            if k < others.len() {
                assert(others.contains(others[k]));
            }
        }
    }
}

/// Whether at most one checkbox is checked.
pub open spec fn at_most_one_checked(items: Seq<Checkbox>) -> bool {
    forall|i: int, j: int|
        0 <= i < items.len() && 0 <= j < items.len() && (#[trigger] items[i]).checked && (
        #[trigger] items[j]).checked ==> i == j
}

/// Whether no two checkboxes have one id.
pub open spec fn ids_differ(items: Seq<Checkbox>) -> bool {
    forall|i: int, j: int|
        0 <= i < j < items.len() ==> (#[trigger] items[i]).id@ != (#[trigger] items[j]).id@
}

/// A click leaves at most one checkbox checked, where the ids differ: the one that was clicked.
pub proof fn law_click_leaves_one_check(
    items: Seq<Checkbox>,
    index: int,
    id: Seq<char>,
    checked: bool,
)
    requires
        ids_differ(items),
        is_first_with_id(items, id, index),
    ensures
        at_most_one_checked(after_click(items, index, id, checked)),
        after_click(items, index, id, checked)[index].checked == checked,
        ids_differ(after_click(items, index, id, checked)),
{
    let after = after_click(items, index, id, checked);
    assert forall|i: int| 0 <= i < after.len() && i != index implies !(#[trigger] after[i]).checked by {
        assert(items[i].id@ != items[index].id@);
    }
    assert forall|i: int, j: int| 0 <= i < j < after.len() implies (#[trigger] after[i]).id@ != (
    #[trigger] after[j]).id@ by {
        assert(items[i].id@ != items[j].id@);
    }
}

/// Receivers that are found and lost leave at most one checkbox checked, if it was so before.
pub proof fn law_found_and_lost_keep_one_check(items: Seq<Checkbox>, found: Checkbox, lost: int)
    requires
        at_most_one_checked(items),
        !found.checked,
        0 <= lost < items.len(),
    ensures
        at_most_one_checked(items.push(found)),
        at_most_one_checked(items.remove(lost)),
{
    let after = items.push(found);
    assert forall|i: int, j: int|
        0 <= i < after.len() && 0 <= j < after.len() && (#[trigger] after[i]).checked && (
        #[trigger] after[j]).checked implies i == j by {
        assert(items[i].checked && items[j].checked);
    }
    let rest = items.remove(lost);
    assert forall|i: int, j: int|
        0 <= i < rest.len() && 0 <= j < rest.len() && (#[trigger] rest[i]).checked && (
        #[trigger] rest[j]).checked implies i == j by {
        let a = if i < lost { i } else { i + 1 };
        let b = if j < lost { j } else { j + 1 };
        assert(items[a].checked && items[b].checked);
    }
}

/// A receiver that is found and then lost leaves the menu as it was, if none of its name was there.
pub proof fn law_found_then_lost(items: Seq<Checkbox>, found: Checkbox, index: int)
    requires
        !has_name(items, found.name@),
        is_first_with_name(items.push(found), found.name@, index),
    ensures
        has_name(items.push(found), found.name@),
        items.push(found).remove(index) == items,
{
    let after = items.push(found);
    if index < items.len() {
        assert(items[index].name@ == found.name@);
    }
    assert(after[index].name@ == found.name@);
    assert(after.remove(index) =~= items);
}

/// A click changes nothing of a checkbox but its check: every one keeps its name, its address and
/// its id. The one that was clicked has the check that it is said to have, and those with other ids
/// have none.
pub proof fn law_click_keeps_receivers(
    items: Seq<Checkbox>,
    index: int,
    id: Seq<char>,
    checked: bool,
)
    requires
        is_first_with_id(items, id, index),
    ensures
        ({
            let after = after_click(items, index, id, checked);
            &&& after.len() == items.len()
            &&& forall|i: int|
                0 <= i < items.len() ==> (#[trigger] after[i]).name == items[i].name
                    && after[i].addr == items[i].addr && after[i].id == items[i].id
            &&& after[index].checked == checked
            &&& forall|i: int|
                0 <= i < items.len() && items[i].id@ != id ==> !(#[trigger] after[i]).checked
            &&& forall|i: int|
                0 <= i < items.len() && i != index && items[i].id@ == id ==> (
                #[trigger] after[i]).checked == items[i].checked
        }),
{
}

/// A click on a receiver connects to the address that it was found with, whatever was clicked before:
/// after any click the first checkbox with an id is the same as before it, with the same address.
pub proof fn law_click_finds_the_same_address(
    items: Seq<Checkbox>,
    earlier: int,
    earlier_id: Seq<char>,
    checked: bool,
    index: int,
    id: Seq<char>,
)
    requires
        is_first_with_id(items, earlier_id, earlier),
    ensures
        ({
            let after = after_click(items, earlier, earlier_id, checked);
            &&& is_first_with_id(after, id, index) <==> is_first_with_id(items, id, index)
            &&& is_first_with_id(items, id, index) ==> after[index].addr == items[index].addr
                && after[index].name == items[index].name
            &&& has_id(after, id) <==> has_id(items, id)
        }),
{
    let after = after_click(items, earlier, earlier_id, checked);
    law_click_keeps_receivers(items, earlier, earlier_id, checked);
    assert forall|i: int| 0 <= i < items.len() implies (#[trigger] after[i]).id@ == items[i].id@ by {
    }
    if is_first_with_id(after, id, index) {
        assert forall|i: int| 0 <= i < index implies (#[trigger] items[i]).id@ != id by {
            assert(after[i].id@ != id);
        }
    }
    if has_id(items, id) {
        let i = choose|i: int| 0 <= i < items.len() && (#[trigger] items[i]).id@ == id;
        assert(after[i].id@ == id);
    }
    if has_id(after, id) {
        let i = choose|i: int| 0 <= i < after.len() && (#[trigger] after[i]).id@ == id;
        assert(items[i].id@ == id);
    }
}

/// A checkbox is found by its whole id or its whole name, and the first of them is: none before it
/// has it. Where none has it none is found.
pub proof fn law_first_checkbox(items: Seq<Checkbox>, text: Seq<char>, index: int)
    ensures
        is_first_with_id(items, text, index) <==> 0 <= index < items.len() && items[index].id@
            == text && forall|i: int| 0 <= i < index ==> (#[trigger] items[i]).id@ != text,
        is_first_with_name(items, text, index) <==> 0 <= index < items.len() && items[index].name@
            == text && forall|i: int| 0 <= i < index ==> (#[trigger] items[i]).name@ != text,
        !has_id(items, text) <==> forall|i: int|
            0 <= i < items.len() ==> (#[trigger] items[i]).id@ != text,
        !has_name(items, text) <==> forall|i: int|
            0 <= i < items.len() ==> (#[trigger] items[i]).name@ != text,
{
}

/// The ids to uncheck come in the order of the checkboxes, one for each checkbox with another id:
/// those of some checkboxes and of others behind them are the ids of the first and then those of the
/// others.
pub proof fn law_other_ids_join(front: Seq<Checkbox>, back: Seq<Checkbox>, one: Checkbox, id: Seq<char>)
    ensures
        other_ids(front + back, id) == other_ids(front, id) + other_ids(back, id),
        other_ids(seq![one], id) == if one.id@ == id {
            Seq::<Seq<char>>::empty()
        } else {
            seq![one.id@]
        },
    decreases back.len(),
{
    reveal_with_fuel(other_ids, 2);
    assert(seq![one].drop_last() =~= Seq::<Checkbox>::empty());
    assert(other_ids(Seq::<Checkbox>::empty(), id) =~= Seq::<Seq<char>>::empty());
    assert(seq![one.id@] =~= Seq::<Seq<char>>::empty().push(one.id@));
    if back.len() == 0 {
        assert(front + back =~= front);
        assert(other_ids(front, id) + other_ids(back, id) =~= other_ids(front, id));
    } else {
        let rest = back.drop_last();
        law_other_ids_join(front, rest, one, id);
        assert((front + back).drop_last() =~= front + rest);
        assert((front + back).last() == back.last());
        assert(other_ids(front + back, id) =~= other_ids(front, id) + other_ids(back, id));
    }
}

/// The menu shows each receiver once, the one found last on top, and below them a separator and the
/// four lines.
pub proof fn law_menu_order(items: Seq<Checkbox>, lines: StatMenuItems)
    ensures
        menu_boxes(items).len() == items.len(),
        forall|i: int|
            0 <= i < items.len() ==> #[trigger] menu_boxes(items)[items.len() - 1 - i]
                == MenuEntry::Receiver(items[i].name@, items[i].checked),
        menu_lines(lines).len() == 5,
        menu_lines(lines)[0] is Separator,
        menu_lines(lines)[1] == MenuEntry::Line(lines.status@),
        menu_lines(lines)[2] == MenuEntry::Line(lines.sample_rate@),
        menu_lines(lines)[3] == MenuEntry::Line(lines.buffer_size@),
        menu_lines(lines)[4] == MenuEntry::Line(lines.bitrate@),
{
}

/// The lines without a connection say so.
pub proof fn law_clear_lines(lines: StatMenuItems)
    ensures
        lines.is_clear() <==> lines.status@ == "Status: Not connected"@ && lines.sample_rate@
            == "Sample rate: N/A"@ && lines.buffer_size@ == "Buffer size: N/A"@ && lines.bitrate@
            == "Bitrate: N/A"@,
{
}

} // verus!
