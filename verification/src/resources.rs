//! Processor time and memory, as the kernel counts them.

use crate::gather::{gathered, lemma_gathered_filter, lemma_gathered_step};
use crate::number::{number_of, parse_u64};
use crate::text::{
    begins_with, law_lines_cut, lines, lines_of, starts_with, strip_cr, texts, words, words_of,
};
use vstd::prelude::*;

verus! {

/// The number that a word is, if it is one.
pub open spec fn tick_in_word() -> spec_fn(Seq<char>) -> Seq<u64> {
    |word: Seq<char>|
        match number_of(word, u64::MAX as nat) {
            Some(n) => seq![n as u64],
            None => Seq::empty(),
        }
}

/// The numbers in the first line of the kernel's statistics, behind its label.
pub open spec fn ticks_in(stat: Seq<char>) -> Seq<u64> {
    let all = lines_of(stat);
    if all.len() == 0 {
        Seq::empty()
    } else {
        let columns = words_of(all[0]);
        gathered(columns.skip(if columns.len() > 0 { 1 } else { 0 }), tick_in_word())
    }
}

/// The sum of a sequence of numbers.
pub open spec fn sum(s: Seq<u64>) -> nat
    decreases s.len(),
{
    if s.len() == 0 {
        0
    } else {
        sum(s.drop_last()) + s.last() as nat
    }
}

/// The processor ticks in the kernel's statistics, if there are four or more;
/// the fourth counts the idle ones.
pub fn cpu_ticks(stat: &str) -> (r: Option<Vec<u64>>)
    ensures
        r is Some <==> ticks_in(stat@).len() >= 4,
        r is Some ==> r->0@ == ticks_in(stat@),
{
    let list: Vec<&str> = lines(stat);
    assert(texts(list@).len() == list@.len());
    if list.len() == 0 {
        return None;
    }
    assert(texts(list@)[0] == list@[0]@);
    let columns: Vec<&str> = words(list[0]);
    let ghost all = texts(columns@);
    let start: usize = if columns.len() > 0 { 1 } else { 0 };
    let ghost body = all.skip(start as int);
    let mut r: Vec<u64> = Vec::new();
    let mut i: usize = start;
    assert(r@ =~= gathered(body.take(0), tick_in_word()));
    while i < columns.len()
        invariant
            all == texts(columns@),
            start <= i <= columns@.len(),
            body == all.skip(start as int),
            r@ == gathered(body.take(i - start), tick_in_word()),
        decreases columns@.len() - i,
    {
        proof {
            lemma_gathered_step(body, tick_in_word(), i - start);
            assert(body[i - start] == columns@[i as int]@);
        }
        let ghost before = r@;
        if let Some(n) = parse_u64(columns[i]) {
            r.push(n);
        }
        assert(r@ =~= gathered(body.take(i - start + 1), tick_in_word()));
        i += 1;
    }
    assert(body.take(i - start) =~= body);
    if r.len() >= 4 {
        Some(r)
    } else {
        None
    }
}

proof fn lemma_sum_grows(s: Seq<u64>, n: int)
    requires
        0 <= n <= s.len(),
    ensures
        sum(s.take(n)) <= sum(s),
    decreases s.len() - n,
{
    if n < s.len() {
        lemma_sum_grows(s, n + 1);
        assert(s.take(n + 1).drop_last() =~= s.take(n));
    } else {
        assert(s.take(n) =~= s);
    }
}

/// The sum of all ticks, if 64 bits hold it.
pub fn total_ticks(ticks: &Vec<u64>) -> (r: Option<u64>)
    ensures
        r is Some <==> sum(ticks@) <= u64::MAX,
        r is Some ==> r->0 == sum(ticks@),
{
    let mut total: u64 = 0;
    let mut i: usize = 0;
    assert(ticks@.take(0) =~= Seq::empty());
    while i < ticks.len()
        invariant
            i <= ticks@.len(),
            total == sum(ticks@.take(i as int)),
        decreases ticks@.len() - i,
    {
        assert(ticks@.take(i + 1).drop_last() =~= ticks@.take(i as int));
        match total.checked_add(ticks[i]) {
            Some(next) => total = next,
            None => {
                proof {
                    lemma_sum_grows(ticks@, i + 1);
                }
                return None;
            },
        }
        i += 1;
    }
    assert(ticks@.take(i as int) =~= ticks@);
    Some(total)
}

/// The processor ticks at the last look: the idle ones, and all of them.
pub struct CpuTracker {
    pub last: Option<(u64, u64)>,
}

/// `a - b`, or zero where that is negative.
pub open spec fn excess(a: u64, b: u64) -> u64 {
    if a > b {
        (a - b) as u64
    } else {
        0
    }
}

/// The idle ticks and all ticks since the last look, if there was one and any
/// tick has passed.
pub open spec fn passed_since(last: Option<(u64, u64)>, idle: u64, total: u64) -> Option<
    (u64, u64),
> {
    match last {
        Some((i, t)) => if excess(total, t) > 0 {
            Some((excess(idle, i), excess(total, t)))
        } else {
            None
        },
        None => None,
    }
}

impl CpuTracker {
    /// A tracker that has not looked yet.
    pub fn new() -> (r: Self)
        ensures
            r.last is None,
    {
        CpuTracker { last: None }
    }

    /// Takes in the idle ticks and all ticks, and gives how many of each there
    /// were since the last look, if there was one and any tick has passed.
    pub fn observe(&mut self, idle: u64, total: u64) -> (r: Option<(u64, u64)>)
        ensures
            final(self).last == Some((idle, total)),
            r == passed_since(old(self).last, idle, total),
    {
        let r: Option<(u64, u64)> = match self.last {
            Some((last_idle, last_total)) => {
                let idle_diff: u64 = idle.saturating_sub(last_idle);
                let total_diff: u64 = total.saturating_sub(last_total);
                if total_diff > 0 {
                    Some((idle_diff, total_diff))
                } else {
                    None
                }
            },
            None => None,
        };
        self.last = Some((idle, total));
        r
    }
}

/// The number in the second column of a line, if there is one.
pub open spec fn second_number(line: Seq<char>) -> Option<nat> {
    if words_of(line).len() > 1 {
        number_of(words_of(line)[1], u64::MAX as nat)
    } else {
        None
    }
}

/// What the last of these lines that begins with `label` gives.
pub open spec fn labelled(table: Seq<Seq<char>>, label: Seq<char>) -> Option<nat>
    decreases table.len(),
{
    if table.len() == 0 {
        None
    } else if begins_with(table.last(), label) {
        second_number(table.last())
    } else {
        labelled(table.drop_last(), label)
    }
}

/// The memory that there is in all, by the kernel's table.
pub open spec fn reported_total(meminfo: Seq<char>) -> Option<nat> {
    labelled(lines_of(meminfo), "MemTotal:"@)
}

/// The memory that is available, by the kernel's table.
pub open spec fn reported_available(meminfo: Seq<char>) -> Option<nat> {
    labelled(lines_of(meminfo), "MemAvailable:"@)
}

proof fn lemma_labels_differ(line: Seq<char>)
    ensures
        !(begins_with(line, "MemTotal:"@) && begins_with(line, "MemAvailable:"@)),
{
    reveal_strlit("MemTotal:");
    reveal_strlit("MemAvailable:");
    if begins_with(line, "MemTotal:"@) && begins_with(line, "MemAvailable:"@) {
        assert(line.take(9)[3] == 'T');
        assert(line.take(13)[3] == 'A');
        assert(line.take(9)[3] == line[3] && line.take(13)[3] == line[3]);
    }
}

fn second_in(line: &str) -> (r: Option<u64>)
    ensures
        r is Some <==> second_number(line@) is Some,
        r is Some ==> r->0 == second_number(line@)->0,
{
    let columns: Vec<&str> = words(line);
    assert(texts(columns@).len() == columns@.len());
    if columns.len() > 1 {
        assert(texts(columns@)[1] == columns@[1]@);
        parse_u64(columns[1])
    } else {
        None
    }
}

/// The memory that there is in all and that is available, if the kernel's table
/// gives both.
pub fn memory_in(meminfo: &str) -> (r: Option<(u64, u64)>)
    ensures
        r is Some <==> reported_total(meminfo@) is Some && reported_available(meminfo@) is Some,
        r matches Some((total, available)) ==> total == reported_total(meminfo@)->0 && available
            == reported_available(meminfo@)->0,
{
    let list: Vec<&str> = lines(meminfo);
    let ghost all = texts(list@);
    let mut total: Option<u64> = None;
    let mut available: Option<u64> = None;
    let mut i: usize = 0;
    assert(all.take(0) =~= Seq::empty());
    while i < list.len()
        invariant
            all == texts(list@),
            i <= list@.len(),
            total is Some <==> labelled(all.take(i as int), "MemTotal:"@) is Some,
            total is Some ==> total->0 == labelled(all.take(i as int), "MemTotal:"@)->0,
            available is Some <==> labelled(all.take(i as int), "MemAvailable:"@) is Some,
            available is Some ==> available->0 == labelled(all.take(i as int), "MemAvailable:"@)->0,
        decreases list@.len() - i,
    {
        proof {
            let next = all.take(i + 1);
            assert(next.drop_last() =~= all.take(i as int));
            assert(next.last() == list@[i as int]@);
            lemma_labels_differ(list@[i as int]@);
        }
        if starts_with(list[i], "MemTotal:") {
            total = second_in(list[i]);
        } else if starts_with(list[i], "MemAvailable:") {
            available = second_in(list[i]);
        }
        i += 1;
    }
    assert(all.take(i as int) =~= all);
    match (total, available) {
        (Some(t), Some(a)) => Some((t, a)),
        _ => None,
    }
}

/// An alarm is due for a usage that is above its bound, where the usage before
/// was at most the bound, or there was none before.
pub open spec fn is_alarming(above: bool, at_most_before: Option<bool>) -> bool {
    above && at_most_before != Some(false)
}

/// Is an alarm due for a usage that is above its bound (`above`)? It is where
/// the usage before was at most the bound, or there was none before.
pub fn alarm_due(above: bool, at_most_before: Option<bool>) -> (r: bool)
    ensures
        r == is_alarming(above, at_most_before),
{
    above && match at_most_before {
        Some(was) => was,
        None => true,
    }
}

/// The ticks are the numbers among the words of the first line, without its first
/// word, in order; what follows the first line does not count.
pub proof fn law_ticks_are_read(line: Seq<char>, rest: Seq<char>)
    requires
        !line.contains('\n'),
        words_of(strip_cr(line)).len() > 0,
    ensures
        ticks_in(line.push('\n') + rest) == words_of(strip_cr(line)).skip(1).filter(
            |w: Seq<char>| number_of(w, 0xffff_ffff_ffff_ffff) is Some,
        ).map_values(|w: Seq<char>| number_of(w, 0xffff_ffff_ffff_ffff)->0 as u64),
        ticks_in(Seq::empty()) == Seq::<u64>::empty(),
{
    law_lines_cut(line, rest);
    let all = lines_of(line.push('\n') + rest);
    assert(all[0] == strip_cr(line));
    lemma_gathered_filter(
        words_of(strip_cr(line)).skip(1),
        tick_in_word(),
        |w: Seq<char>| number_of(w, 0xffff_ffff_ffff_ffff) is Some,
        |w: Seq<char>| number_of(w, 0xffff_ffff_ffff_ffff)->0 as u64,
    );
}

/// A number counts once in the sum, wherever it stands.
pub proof fn law_sum(a: Seq<u64>, n: u64, b: Seq<u64>)
    ensures
        sum(Seq::empty()) == 0,
        sum(a.push(n) + b) == sum(a) + n + sum(b),
    decreases b.len(),
{
    let all = a.push(n) + b;
    if b.len() == 0 {
        assert(all.drop_last() =~= a);
    } else {
        assert(all.drop_last() =~= a.push(n) + b.drop_last());
        law_sum(a, n, b.drop_last());
    }
}

/// What has passed since the last look is the difference, and nothing where the
/// count went back.
pub proof fn law_excess(a: u64, b: u64)
    ensures
        a >= b ==> excess(a, b) + b == a,
        a <= b ==> excess(a, b) == 0,
{
}

proof fn lemma_labelled(table: Seq<Seq<char>>, label: Seq<char>, i: int)
    requires
        -1 <= i < table.len(),
        i >= 0 ==> begins_with(table[i], label),
        forall|j: int| i < j < table.len() ==> !begins_with(#[trigger] table[j], label),
    ensures
        labelled(table, label) == if i >= 0 {
            second_number(table[i])
        } else {
            None
        },
    decreases table.len(),
{
    if table.len() > 0 && i < table.len() - 1 {
        let rest = table.drop_last();
        assert(!begins_with(table[table.len() - 1], label));
        if i >= 0 {
            assert(rest[i] == table[i]);
        }
        assert forall|j: int| i < j < rest.len() implies !begins_with(#[trigger] rest[j], label) by {
            assert(rest[j] == table[j]);
        }
        lemma_labelled(rest, label, i);
    }
}

/// Each figure of the memory is the second word of the last line that begins with
/// its label, if that is a number; without such a line there is none.
pub proof fn law_memory_is_read(meminfo: Seq<char>, i: int, available: bool)
    requires
        -1 <= i < lines_of(meminfo).len(),
        ({
            let label = if available {
                "MemAvailable:"@
            } else {
                "MemTotal:"@
            };
            &&& i >= 0 ==> begins_with(lines_of(meminfo)[i], label)
            &&& forall|j: int|
                i < j < lines_of(meminfo).len() ==> !begins_with(
                    #[trigger] lines_of(meminfo)[j],
                    label,
                )
        }),
    ensures
        (if available {
            reported_available(meminfo)
        } else {
            reported_total(meminfo)
        }) == if i >= 0 && words_of(lines_of(meminfo)[i]).len() > 1 {
            number_of(words_of(lines_of(meminfo)[i])[1], 0xffff_ffff_ffff_ffff)
        } else {
            None
        },
{
    let label = if available {
        "MemAvailable:"@
    } else {
        "MemTotal:"@
    };
    lemma_labelled(lines_of(meminfo), label, i);
}

/// A first look tells nothing, nor does one before which no tick has passed or
/// the count went back. Any other tells how many ticks have passed, and how many
/// of them were idle, or none of these where that count went back.
pub proof fn law_looks(last_idle: u64, last_total: u64, idle: u64, total: u64)
    ensures
        passed_since(None, idle, total) is None,
        total <= last_total ==> passed_since(Some((last_idle, last_total)), idle, total) is None,
        total > last_total && idle >= last_idle ==> passed_since(
            Some((last_idle, last_total)),
            idle,
            total,
        ) == Some(((idle - last_idle) as u64, (total - last_total) as u64)),
        total > last_total && idle < last_idle ==> passed_since(
            Some((last_idle, last_total)),
            idle,
            total,
        ) == Some((0u64, (total - last_total) as u64)),
{
}

/// An alarm comes at the first usage above the bound, and at each that follows
/// on one that was not above it; a usage that is not above it gives none.
pub proof fn law_alarms()
    ensures
        is_alarming(true, None),
        is_alarming(true, Some(true)),
        !is_alarming(true, Some(false)),
        !is_alarming(false, None),
        !is_alarming(false, Some(true)),
        !is_alarming(false, Some(false)),
{
}

} // verus!
