//! How full the file systems are.

use crate::bytes::{faithful, lossy_text, utf8_lossy};
use crate::event::{add_event, carrying, data_event, events, no_events, Event, EventView};
use crate::gather::{
    gathered, lemma_gathered_contains, lemma_gathered_filter, lemma_gathered_nothing,
    lemma_gathered_step,
};
use crate::json::{new_object, no_members, object_text, object_to_text, put, Member, MemberView};
use crate::name_map::{
    as_map, key_index, keys_distinct, lemma_entry, lemma_key, lemma_placed, placed, NameMap,
};
use crate::number::{
    decimal, law_decimal_digits, law_decimal_reads_back, number_of, parse_u64, parse_u8,
};
use crate::state::{DiskUsage, DiskUsageView, SystemState, SystemStateView};
use crate::text::{
    begins_with, drop_trailing, law_drop_trailing, law_lines_cut, lines, lines_of, only,
    starts_with, texts, trim_end, words, words_of,
};
use vstd::prelude::*;

verus! {

/// At this usage, in percent, space is low.
pub const LOW_SPACE_PERCENT: u8 = 90;

/// The entries of a table of file systems, by mount point.
pub type DiskEntries = Seq<(Seq<char>, DiskUsageView)>;

/// File systems at this place are watched: real ones, under an absolute path.
pub open spec fn is_watched(mount_point: Seq<char>) -> bool {
    &&& begins_with(mount_point, "/"@)
    &&& !begins_with(mount_point, "/snap"@)
    &&& !begins_with(mount_point, "/sys"@)
    &&& !begins_with(mount_point, "/proc"@)
}

/// The file system that a line of the table describes, if it describes one that
/// is watched. A usage that is no number counts as zero.
pub open spec fn disk_in_line(line: Seq<char>) -> Option<DiskUsageView> {
    let columns = words_of(line);
    let total = number_of(columns[1], u64::MAX as nat);
    let used = number_of(columns[2], u64::MAX as nat);
    let available = number_of(columns[3], u64::MAX as nat);
    if columns.len() >= 5 && is_watched(columns[0]) && total is Some && used is Some
        && available is Some {
        Some(
            DiskUsageView {
                mount_point: columns[0],
                total_bytes: total->0,
                used_bytes: used->0,
                available_bytes: available->0,
                usage_percent: match number_of(
                    drop_trailing(columns[4], only('%')),
                    u8::MAX as nat,
                ) {
                    Some(n) => n,
                    None => 0,
                },
            },
        )
    } else {
        None
    }
}

/// The file systems in the lines of the table; of two with the same mount
/// point, the one further down.
pub open spec fn disks_in(table_lines: Seq<Seq<char>>) -> DiskEntries
    decreases table_lines.len(),
{
    if table_lines.len() == 0 {
        Seq::empty()
    } else {
        let above = disks_in(table_lines.drop_last());
        match disk_in_line(table_lines.last()) {
            Some(disk) => placed(above, disk.mount_point, disk),
            None => above,
        }
    }
}

/// The file systems in the table, whose first line is a heading.
pub open spec fn reported_disks(report: Seq<char>) -> DiskEntries {
    let all = lines_of(report);
    disks_in(all.skip(if all.len() > 0 { 1 } else { 0 }))
}

fn line_to_disk(line: &str) -> (r: Option<DiskUsage>)
    ensures
        r is Some <==> disk_in_line(line@) is Some,
        r is Some ==> r->0@ == disk_in_line(line@)->0,
{
    let columns: Vec<&str> = words(line);
    assert(texts(columns@).len() == columns@.len());
    if columns.len() < 5 {
        return None;
    }
    assert(forall|i: int| 0 <= i < columns@.len() ==> texts(columns@)[i] == #[trigger] columns@[i]@);
    let mount_point: &str = columns[0];
    if !starts_with(mount_point, "/") || starts_with(mount_point, "/snap") || starts_with(
        mount_point,
        "/sys",
    ) || starts_with(mount_point, "/proc") {
        return None;
    }
    match (parse_u64(columns[1]), parse_u64(columns[2]), parse_u64(columns[3])) {
        (Some(total), Some(used), Some(available)) => {
            let usage_percent: u8 = match parse_u8(trim_end(columns[4], '%')) {
                Some(n) => n,
                None => 0,
            };
            let r = DiskUsage {
                mount_point: mount_point.to_string(),
                total_bytes: total,
                used_bytes: used,
                available_bytes: available,
                usage_percent,
            };
            assert(r@ =~= disk_in_line(line@)->0);
            Some(r)
        },
        _ => None,
    }
}

/// The file systems in the table.
pub fn disk_usage_in(report: &str) -> (r: NameMap<DiskUsage>)
    ensures
        r.wf(),
        r.entries() == reported_disks(report@),
{
    let list: Vec<&str> = lines(report);
    let ghost all = texts(list@);
    let start: usize = if list.len() > 0 { 1 } else { 0 };
    let ghost body = all.skip(start as int);
    let mut r: NameMap<DiskUsage> = NameMap::new();
    let mut i: usize = start;
    assert(body.take(0) =~= Seq::empty());
    assert(r.entries() =~= Seq::empty());
    while i < list.len()
        invariant
            all == texts(list@),
            start <= i <= list@.len(),
            body == all.skip(start as int),
            r.wf(),
            r.entries() == disks_in(body.take(i - start)),
        decreases list@.len() - i,
    {
        proof {
            let next = body.take(i - start + 1);
            assert(next.drop_last() =~= body.take(i - start));
            assert(next.last() == all[i as int]);
            assert(all[i as int] == list@[i as int]@);
        }
        if let Some(disk) = line_to_disk(list[i]) {
            r.insert(disk.mount_point.clone(), disk);
        }
        i += 1;
    }
    assert(body.take(i - start) =~= body);
    r
}

/// The file systems that the lister printed; none if it could not be run.
pub fn get_disk_usage(stdout: Option<Vec<u8>>) -> (r: NameMap<DiskUsage>)
    ensures
        r.wf(),
        stdout is None ==> r.entries() == DiskEntries::empty(),
        stdout is Some ==> r.entries() == reported_disks(utf8_lossy(stdout->0@)),
        stdout is Some ==> faithful(stdout->0@),
{
    match stdout {
        Some(bytes) => {
            let report: String = lossy_text(bytes.as_slice());
            disk_usage_in(report.as_str())
        },
        None => {
            let r: NameMap<DiskUsage> = NameMap::new();
            assert(r.entries() =~= Seq::empty());
            r
        },
    }
}

/// The data of an event about a file system.
pub open spec fn disk_data(mount_point: Seq<char>, usage: DiskUsageView) -> Seq<char> {
    object_text(
        no_members().insert("mount_point"@, MemberView::Text(mount_point)).insert(
            "usage_percent"@,
            MemberView::Number(usage.usage_percent),
        ).insert("available_bytes"@, MemberView::Number(usage.available_bytes)),
    )
}

/// The event of a file system that was seen with space left and now has little.
pub open spec fn disk_entry_events(
    old: Map<Seq<char>, DiskUsageView>,
) -> spec_fn((Seq<char>, DiskUsageView)) -> Seq<EventView> {
    |e: (Seq<char>, DiskUsageView)|
        if e.1.usage_percent >= LOW_SPACE_PERCENT && old.dom().contains(e.0)
            && old[e.0].usage_percent < LOW_SPACE_PERCENT {
            seq![carrying("OnDiskSpaceLow"@, disk_data(e.0, e.1))]
        } else {
            Seq::empty()
        }
}

/// The events of finding the file systems `new` where `old` were before.
pub open spec fn disk_events(old: DiskEntries, new: DiskEntries) -> Seq<EventView> {
    gathered(new, disk_entry_events(as_map(old)))
}

fn disk_text(mount_point: &String, usage: &DiskUsage) -> (r: String)
    ensures
        r@ == disk_data(mount_point@, usage@),
{
    let mut object = new_object();
    put(&mut object, "mount_point", Member::Text(mount_point.clone()));
    put(&mut object, "usage_percent", Member::Number(usage.usage_percent as u64));
    put(&mut object, "available_bytes", Member::Number(usage.available_bytes));
    object_to_text(object)
}

/// Takes in how full the file systems are now.
pub fn disk_report(state: &mut SystemState, usage: NameMap<DiskUsage>) -> (r: Vec<Event>)
    ensures
        final(state)@ == (SystemStateView { disk_usage: usage.entries(), ..old(state)@ }),
        events(r@) == disk_events(old(state)@.disk_usage, usage.entries()),
{
    let mut r: Vec<Event> = no_events();
    let ghost all = usage.entries();
    let ghost f = disk_entry_events(as_map(state@.disk_usage));
    let mut i: usize = 0;
    assert(events(r@) =~= gathered(all.take(0), f));
    while i < usage.len()
        invariant
            *state == *old(state),
            all == usage.entries(),
            f == disk_entry_events(as_map(state@.disk_usage)),
            i <= all.len(),
            events(r@) == gathered(all.take(i as int), f),
        decreases all.len() - i,
    {
        proof {
            lemma_gathered_step(all, f, i as int);
        }
        let name: &String = usage.name_at(i);
        let now: &DiskUsage = usage.value_at(i);
        if now.usage_percent >= LOW_SPACE_PERCENT {
            if let Some(before) = state.disk_usage.get(name.as_str()) {
                if before.usage_percent < LOW_SPACE_PERCENT {
                    add_event(&mut r, data_event("OnDiskSpaceLow", disk_text(name, now)));
                }
            }
        }
        assert(events(r@) =~= gathered(all.take(i + 1), f));
        i += 1;
    }
    assert(all.take(i as int) =~= all);
    state.disk_usage = usage;
    r
}

/// The same table a second time tells plugins nothing, and neither does the
/// first table.
pub proof fn law_disk_settles(entries: DiskEntries)
    requires
        keys_distinct(entries),
    ensures
        disk_events(entries, entries) == Seq::<EventView>::empty(),
        disk_events(DiskEntries::empty(), entries) == Seq::<EventView>::empty(),
{
    let f = disk_entry_events(as_map(entries));
    assert forall|i: int| 0 <= i < entries.len() implies (#[trigger] f(entries[i])).len() == 0 by {
        lemma_entry(entries, i);
    }
    lemma_gathered_nothing(entries, f);
    let g = disk_entry_events(as_map(DiskEntries::empty()));
    assert forall|i: int| 0 <= i < entries.len() implies (#[trigger] g(entries[i])).len() == 0 by {
        lemma_key(DiskEntries::empty(), entries[i].0);
    }
    lemma_gathered_nothing(entries, g);
}

/// A file system that had space left at the last look and has little now is
/// announced.
pub proof fn law_low_space_announced(old: DiskEntries, new: DiskEntries, mount_point: Seq<char>)
    requires
        as_map(old).dom().contains(mount_point),
        as_map(old)[mount_point].usage_percent < LOW_SPACE_PERCENT,
        as_map(new).dom().contains(mount_point),
        as_map(new)[mount_point].usage_percent >= LOW_SPACE_PERCENT,
    ensures
        disk_events(old, new).contains(
            carrying("OnDiskSpaceLow"@, disk_data(mount_point, as_map(new)[mount_point])),
        ),
{
    let f = disk_entry_events(as_map(old));
    let e = carrying("OnDiskSpaceLow"@, disk_data(mount_point, as_map(new)[mount_point]));
    lemma_key(new, mount_point);
    let i = key_index(new, mount_point);
    assert(f(new[i])[0] == e);
    assert(f(new[i]).contains(e));
    lemma_gathered_contains(new, f, e);
}

/// A line of the table describes the file system that its first five words give:
/// the place, which is absolute and not one of the kernel's or of a package, the
/// three figures, and the percentage in front of percent signs, which counts as
/// zero where it is no number. A line with another place, with another figure or
/// with fewer words describes none.
pub proof fn law_disk_is_read(line: Seq<char>, percent: Seq<char>, signs: nat)
    requires
        percent.len() == 0 || percent.last() != '%',
    ensures
        ({
            let w = words_of(line);
            let max: nat = 0xffff_ffff_ffff_ffff;
            let place = w[0];
            let counted = begins_with(place, "/"@) && !begins_with(place, "/snap"@) && !begins_with(
                place,
                "/sys"@,
            ) && !begins_with(place, "/proc"@);
            let sound = number_of(w[1], max) is Some && number_of(w[2], max) is Some && number_of(
                w[3],
                max,
            ) is Some;
            let found = disk_in_line(line);
            &&& w.len() < 5 || !counted || !sound ==> found is None
            &&& w.len() >= 5 && counted && sound ==> found is Some && found->0.mount_point == place
                && number_of(w[1], max) == Some(found->0.total_bytes) && number_of(w[2], max)
                == Some(found->0.used_bytes) && number_of(w[3], max) == Some(
                found->0.available_bytes,
            )
            &&& w.len() >= 5 && counted && sound && w[4] == percent + Seq::new(signs, |i: int| '%')
                ==> found->0.usage_percent == match number_of(percent, 255) {
                Some(p) => p,
                None => 0,
            }
        }),
{
    law_drop_trailing(percent, '%', signs);
}

/// The figures that are written in a line of the table are the figures that are
/// read, the percentage among them.
pub proof fn law_disk_figures_read_back(
    line: Seq<char>,
    total: u64,
    used: u64,
    available: u64,
    percent: u8,
)
    requires
        words_of(line).len() >= 5,
        begins_with(words_of(line)[0], "/"@),
        !begins_with(words_of(line)[0], "/snap"@),
        !begins_with(words_of(line)[0], "/sys"@),
        !begins_with(words_of(line)[0], "/proc"@),
        words_of(line)[1] == decimal(total as nat),
        words_of(line)[2] == decimal(used as nat),
        words_of(line)[3] == decimal(available as nat),
        words_of(line)[4] == decimal(percent as nat).push('%'),
    ensures
        disk_in_line(line) == Some(
            DiskUsageView {
                mount_point: words_of(line)[0],
                total_bytes: total as nat,
                used_bytes: used as nat,
                available_bytes: available as nat,
                usage_percent: percent as nat,
            },
        ),
{
    let max: nat = 0xffff_ffff_ffff_ffff;
    law_decimal_reads_back(total as nat, max);
    law_decimal_reads_back(used as nat, max);
    law_decimal_reads_back(available as nat, max);
    law_decimal_reads_back(percent as nat, 255);
    let text = decimal(percent as nat);
    law_decimal_digits(percent as nat, 0);
    assert(text.push('%') =~= text + Seq::new(1, |i: int| '%'));
    law_disk_is_read(line, text, 1);
}

proof fn lemma_disks_distinct(table: Seq<Seq<char>>)
    ensures
        keys_distinct(disks_in(table)),
    decreases table.len(),
{
    if table.len() > 0 {
        lemma_disks_distinct(table.drop_last());
        if let Some(disk) = disk_in_line(table.last()) {
            lemma_placed(disks_in(table.drop_last()), disk.mount_point, disk);
        }
    }
}

proof fn lemma_last_line_wins(table: Seq<Seq<char>>, place: Seq<char>, i: int)
    requires
        -1 <= i < table.len(),
        i >= 0 ==> disk_in_line(table[i]) is Some && disk_in_line(table[i])->0.mount_point == place,
        forall|j: int|
            i < j < table.len() && disk_in_line(#[trigger] table[j]) is Some ==> disk_in_line(
                table[j],
            )->0.mount_point != place,
    ensures
        as_map(disks_in(table)).dom().contains(place) == (i >= 0),
        i >= 0 ==> as_map(disks_in(table))[place] == disk_in_line(table[i])->0,
    decreases table.len(),
{
    if table.len() == 0 {
        lemma_key(disks_in(table), place);
    } else {
        let rest = table.drop_last();
        let last = table.last();
        assert(last == table[table.len() - 1]);
        lemma_disks_distinct(rest);
        if let Some(disk) = disk_in_line(last) {
            lemma_placed(disks_in(rest), disk.mount_point, disk);
        }
        if i < table.len() - 1 {
            if i >= 0 {
                assert(rest[i] == table[i]);
            }
            assert forall|j: int|
                i < j < rest.len() && disk_in_line(#[trigger] rest[j]) is Some implies disk_in_line(
                rest[j],
            )->0.mount_point != place by {
                assert(rest[j] == table[j]);
            }
            lemma_last_line_wins(rest, place, i);
        }
    }
}

/// Below the heading, whatever it says, each file system is as the last line that
/// describes it says; a place that no line describes is not in the table.
pub proof fn law_table_is_read(heading: Seq<char>, body: Seq<char>, place: Seq<char>, i: int)
    requires
        !heading.contains('\n'),
        -1 <= i < lines_of(body).len(),
        i >= 0 ==> disk_in_line(lines_of(body)[i]) is Some && disk_in_line(
            lines_of(body)[i],
        )->0.mount_point == place,
        forall|j: int|
            i < j < lines_of(body).len() && disk_in_line(#[trigger] lines_of(body)[j]) is Some
                ==> disk_in_line(lines_of(body)[j])->0.mount_point != place,
    ensures
        ({
            let table = reported_disks(heading.push('\n') + body);
            &&& keys_distinct(table)
            &&& as_map(table).dom().contains(place) == (i >= 0)
            &&& i >= 0 ==> as_map(table)[place] == disk_in_line(lines_of(body)[i])->0
        }),
        reported_disks(heading) == DiskEntries::empty(),
{
    law_lines_cut(heading, body);
    let all = lines_of(heading.push('\n') + body);
    assert(all.skip(1) =~= lines_of(body));
    lemma_last_line_wins(lines_of(body), place, i);
    lemma_disks_distinct(lines_of(body));
    let alone = lines_of(heading);
    assert(alone.skip(if alone.len() > 0 { 1 } else { 0 }) =~= Seq::empty());
}

/// The data of a file system are its place, its percentage and what is
/// available, and nothing else.
pub proof fn law_disk_data(
    place: Seq<char>,
    usage: DiskUsageView,
    members: Map<Seq<char>, MemberView>,
)
    requires
        members.dom() == set!["mount_point"@, "usage_percent"@, "available_bytes"@],
        members["mount_point"@] == MemberView::Text(place),
        members["usage_percent"@] == MemberView::Number(usage.usage_percent),
        members["available_bytes"@] == MemberView::Number(usage.available_bytes),
    ensures
        disk_data(place, usage) == object_text(members),
{
    assert(members =~= no_members().insert("mount_point"@, MemberView::Text(place)).insert(
        "usage_percent"@,
        MemberView::Number(usage.usage_percent),
    ).insert("available_bytes"@, MemberView::Number(usage.available_bytes)));
}

/// Exactly the file systems that are used to ninety percent or more, and were
/// used to less at the last look, are told, in order.
pub proof fn law_disks_are_told(old: DiskEntries, new: DiskEntries)
    ensures
        disk_events(old, new) == new.filter(
            |e: (Seq<char>, DiskUsageView)|
                e.1.usage_percent >= 90 && as_map(old).dom().contains(e.0) && as_map(
                    old,
                )[e.0].usage_percent < 90,
        ).map_values(
            |e: (Seq<char>, DiskUsageView)| carrying("OnDiskSpaceLow"@, disk_data(e.0, e.1)),
        ),
{
    lemma_gathered_filter(
        new,
        disk_entry_events(as_map(old)),
        |e: (Seq<char>, DiskUsageView)|
            e.1.usage_percent >= 90 && as_map(old).dom().contains(e.0) && as_map(
                old,
            )[e.0].usage_percent < 90,
        |e: (Seq<char>, DiskUsageView)| carrying("OnDiskSpaceLow"@, disk_data(e.0, e.1)),
    );
}

} // verus!
