//! The Prometheus text format of the metrics endpoint: help and type lines,
//! samples with escaped label values, and the per-behavior counters.
use vstd::prelude::*;
use crate::runtime_behavior::{BehaviorRuntimeCounterSnapshot, BehaviorRuntimeStatus};
use crate::text::{chars_of, decimal, decimal_chars, string_push};

verus! {

/// Appends `s` to `output`.
pub fn push_text(output: &mut String, s: &str)
    ensures
        final(output)@ == old(output)@ + s@,
{
    let v = chars_of(s);
    push_chars(output, v.as_slice());
}

fn push_chars(output: &mut String, v: &[char])
    ensures
        final(output)@ == old(output)@ + v@,
{
    let ghost start = output@;
    let mut i: usize = 0;
    while i < v.len()
        invariant
            i <= v@.len(),
            output@ == start + v@.take(i as int),
        decreases v@.len() - i,
    {
        string_push(output, v[i]);
        i = i + 1;
        assert(output@ =~= start + v@.take(i as int));
    }
    assert(v@.take(i as int) =~= v@);
}

pub open spec fn help_line(name: Seq<char>, help: Seq<char>) -> Seq<char> {
    "# HELP "@ + name + seq![' '] + help + seq!['\n']
}

pub open spec fn type_line(name: Seq<char>, kind: Seq<char>) -> Seq<char> {
    "# TYPE "@ + name + seq![' '] + kind + seq!['\n']
}

/// `# HELP name help`.
pub fn push_metric_help(output: &mut String, name: &str, help: &str)
    ensures
        final(output)@ == old(output)@ + help_line(name@, help@),
{
    push_text(output, "# HELP ");
    push_text(output, name);
    string_push(output, ' ');
    push_text(output, help);
    string_push(output, '\n');
    assert(final(output)@ =~= old(output)@ + help_line(name@, help@));
}

/// `# TYPE name kind`.
pub fn push_metric_type(output: &mut String, name: &str, kind: &str)
    ensures
        final(output)@ == old(output)@ + type_line(name@, kind@),
{
    push_text(output, "# TYPE ");
    push_text(output, name);
    string_push(output, ' ');
    push_text(output, kind);
    string_push(output, '\n');
    assert(final(output)@ =~= old(output)@ + type_line(name@, kind@));
}

/// How one character of a label value is written: backslash, double quote
/// and newline escaped with a backslash, every other character as it is.
pub open spec fn escape_char(c: char) -> Seq<char> {
    if c == '\\' {
        seq!['\\', '\\']
    } else if c == '"' {
        seq!['\\', '"']
    } else if c == '\n' {
        seq!['\\', 'n']
    } else {
        seq![c]
    }
}

/// A label value, escaped.
pub open spec fn escape_label(v: Seq<char>) -> Seq<char>
    decreases v.len(),
{
    if v.len() == 0 {
        Seq::empty()
    } else {
        escape_label(v.drop_last()) + escape_char(v.last())
    }
}

/// Appends the escaped label value `value`.
pub fn push_metric_label_value(output: &mut String, value: &str)
    ensures
        final(output)@ == old(output)@ + escape_label(value@),
{
    let v = chars_of(value);
    let ghost start = output@;
    let mut i: usize = 0;
    assert(v@.take(0) =~= Seq::<char>::empty());
    while i < v.len()
        invariant
            i <= v@.len(),
            v@ == value@,
            output@ == start + escape_label(v@.take(i as int)),
        decreases v@.len() - i,
    {
        let c = v[i];
        proof {
            assert(v@.take(i + 1).drop_last() =~= v@.take(i as int));
            assert(v@.take(i + 1).last() == c);
        }
        let ghost before = output@;
        if c == '\\' {
            string_push(output, '\\');
            string_push(output, '\\');
        } else if c == '"' {
            string_push(output, '\\');
            string_push(output, '"');
        } else if c == '\n' {
            string_push(output, '\\');
            string_push(output, 'n');
        } else {
            string_push(output, c);
        }
        assert(output@ =~= before + escape_char(c));
        i = i + 1;
    }
    assert(v@.take(i as int) =~= v@);
}

/// The labels of a sample, `key="value"` joined by commas.
pub open spec fn labels_text(labels: Seq<(String, String)>) -> Seq<char>
    decreases labels.len(),
{
    if labels.len() == 0 {
        Seq::empty()
    } else {
        let prev = labels_text(labels.drop_last());
        let one = labels.last().0@ + "=\""@ + escape_label(labels.last().1@) + seq!['"'];
        if labels.len() == 1 {
            one
        } else {
            prev + seq![','] + one
        }
    }
}

/// A sample line: the name, the labels in braces where there are any, and
/// the value in decimal.
pub open spec fn metric_line(name: Seq<char>, labels: Seq<(String, String)>, value: u64) -> Seq<char> {
    name + (if labels.len() == 0 {
        Seq::empty()
    } else {
        seq!['{'] + labels_text(labels) + seq!['}']
    }) + seq![' '] + decimal(value as nat) + seq!['\n']
}

/// Appends a sample.
pub fn push_metric(output: &mut String, name: &str, labels: &Vec<(String, String)>, value: u64)
    ensures
        final(output)@ == old(output)@ + metric_line(name@, labels@, value),
{
    let ghost start = output@;
    push_text(output, name);
    if labels.len() > 0 {
        string_push(output, '{');
        let ghost open_at = output@;
        let mut i: usize = 0;
        assert(labels@.take(0) =~= Seq::<(String, String)>::empty());
        while i < labels.len()
            invariant
                i <= labels@.len(),
                output@ == open_at + labels_text(labels@.take(i as int)),
            decreases labels@.len() - i,
        {
            proof {
                assert(labels@.take(i + 1).drop_last() =~= labels@.take(i as int));
                assert(labels@.take(i + 1).last() == labels@[i as int]);
            }
            let ghost before = output@;
            if i > 0 {
                string_push(output, ',');
            }
            push_text(output, labels[i].0.as_str());
            push_text(output, "=\"");
            push_metric_label_value(output, labels[i].1.as_str());
            string_push(output, '"');
            i = i + 1;
            assert(output@ =~= open_at + labels_text(labels@.take(i as int)));
        }
        assert(labels@.take(i as int) =~= labels@);
        string_push(output, '}');
    }
    string_push(output, ' ');
    let d = decimal_chars(value);
    push_chars(output, d.as_slice());
    string_push(output, '\n');
    assert(final(output)@ =~= start + metric_line(name@, labels@, value));
}

/// A flag as a gauge value: 1 for true, 0 for false.
pub fn bool_metric(value: bool) -> (n: u64)
    ensures
        n == (if value { 1u64 } else { 0u64 }),
{
    if value {
        1
    } else {
        0
    }
}


proof fn lemma_escape_append(a: Seq<char>, b: Seq<char>)
    ensures
        escape_label(a + b) == escape_label(a) + escape_label(b),
    decreases b.len(),
{
    if b.len() == 0 {
        assert(a + b =~= a);
        assert(escape_label(a) + escape_label(b) =~= escape_label(a));
    } else {
        lemma_escape_append(a, b.drop_last());
        assert((a + b).drop_last() =~= a + b.drop_last());
        assert((a + b).last() == b.last());
    }
}

proof fn lemma_escape_front(v: Seq<char>)
    requires
        v.len() > 0,
    ensures
        escape_label(v) == escape_char(v[0]) + escape_label(v.drop_first()),
{
    lemma_escape_append(seq![v[0]], v.drop_first());
    assert(seq![v[0]] + v.drop_first() =~= v);
    assert(seq![v[0]].drop_last() =~= Seq::<char>::empty());
    assert(seq![v[0]].last() == v[0]);
    assert(escape_label(Seq::<char>::empty()) =~= Seq::<char>::empty());
    assert(escape_label(seq![v[0]]) =~= escape_char(v[0]));
}

/// Escaping keeps label values apart: two values that are written alike are
/// the same value.
pub proof fn escape_label_is_injective(a: Seq<char>, b: Seq<char>)
    requires
        escape_label(a) == escape_label(b),
    ensures
        a == b,
    decreases a.len(),
{
    if a.len() == 0 {
        if b.len() > 0 {
            lemma_escape_front(b);
            assert(escape_label(b).len() > 0);
        }
        assert(a =~= b);
    } else if b.len() == 0 {
        lemma_escape_front(a);
        assert(escape_label(a).len() > 0);
    } else {
        lemma_escape_front(a);
        lemma_escape_front(b);
        let ea = escape_char(a[0]);
        let eb = escape_char(b[0]);
        let e = escape_label(a);
        assert(e[0] == ea[0]);
        assert(e[0] == eb[0]);
        assert(ea.len() == eb.len() && ea == eb) by {
            if ea.len() == 2 {
                assert(e[1] == ea[1]);
                assert(eb.len() == 2);
                assert(e[1] == eb[1]);
                assert(ea =~= eb);
            } else {
                assert(eb.len() == 1);
                assert(ea =~= eb);
            }
        }
        assert(a[0] == b[0]);
        assert(escape_label(a.drop_first()) =~= e.skip(ea.len() as int));
        assert(escape_label(b.drop_first()) =~= e.skip(eb.len() as int));
        escape_label_is_injective(a.drop_first(), b.drop_first());
        assert(a =~= seq![a[0]] + a.drop_first());
        assert(b =~= seq![b[0]] + b.drop_first());
    }
}

/// An escaped label value holds no newline, and each double quote in it
/// follows a backslash, so it cannot end the quoted value or the line.
pub proof fn escape_label_is_one_quoted_line(v: Seq<char>)
    ensures
        !escape_label(v).contains('\n'),
        forall|i: int| 0 <= i < escape_label(v).len() && #[trigger] escape_label(v)[i] == '"' ==> i > 0 && escape_label(v)[i - 1] == '\\',
    decreases v.len(),
{
    if v.len() > 0 {
        escape_label_is_one_quoted_line(v.drop_last());
        let p = escape_label(v.drop_last());
        let q = escape_char(v.last());
        assert(escape_label(v) == p + q);
        assert forall|i: int| 0 <= i < (p + q).len() implies (p + q)[i] != '\n' by {
            if i < p.len() {
                assert((p + q)[i] == p[i]);
                assert(!p.contains('\n'));
            }
        }
        assert forall|i: int| 0 <= i < (p + q).len() && #[trigger] (p + q)[i] == '"' implies i > 0 && (p + q)[i - 1] == '\\' by {
            if i < p.len() {
                assert((p + q)[i] == p[i]);
                assert((p + q)[i - 1] == p[i - 1]);
            } else {
                assert(q.len() == 2 && i == p.len() + 1);
            }
        }
    }
}

/// Which counter of a behavior's counters a metric reports.
#[derive(PartialEq, Eq, Structural, Clone, Copy)]
pub enum BehaviorCounterField {
    Invocations,
    Successes,
    UnknownMessageInvocations,
    GuestErrors,
    CommandRejections,
    InstancesCreated,
    InstancesReused,
    InstancesDiscarded,
}

pub open spec fn counter_value(c: BehaviorRuntimeCounterSnapshot, f: BehaviorCounterField) -> u64 {
    match f {
        BehaviorCounterField::Invocations => c.invocations,
        BehaviorCounterField::Successes => c.successes,
        BehaviorCounterField::UnknownMessageInvocations => c.unknown_message_invocations,
        BehaviorCounterField::GuestErrors => c.guest_errors,
        BehaviorCounterField::CommandRejections => c.command_rejections,
        BehaviorCounterField::InstancesCreated => c.instances_created,
        BehaviorCounterField::InstancesReused => c.instances_reused,
        BehaviorCounterField::InstancesDiscarded => c.instances_discarded,
    }
}

fn counter_of(c: &BehaviorRuntimeCounterSnapshot, f: BehaviorCounterField) -> (v: u64)
    ensures
        v == counter_value(*c, f),
{
    match f {
        BehaviorCounterField::Invocations => c.invocations,
        BehaviorCounterField::Successes => c.successes,
        BehaviorCounterField::UnknownMessageInvocations => c.unknown_message_invocations,
        BehaviorCounterField::GuestErrors => c.guest_errors,
        BehaviorCounterField::CommandRejections => c.command_rejections,
        BehaviorCounterField::InstancesCreated => c.instances_created,
        BehaviorCounterField::InstancesReused => c.instances_reused,
        BehaviorCounterField::InstancesDiscarded => c.instances_discarded,
    }
}

/// The per-behavior samples of a counter, in the order of the behaviors.
pub open spec fn behavior_samples(
    name: Seq<char>,
    behaviors: Seq<crate::runtime_behavior::BehaviorRuntimeBehaviorStatus>,
    f: BehaviorCounterField,
) -> Seq<char>
    decreases behaviors.len(),
{
    if behaviors.len() == 0 {
        Seq::empty()
    } else {
        behavior_samples(name, behaviors.drop_last(), f) + name + seq!['{'] + "behavior=\""@
            + escape_label(behaviors.last().name@) + seq!['"', '}', ' '] + decimal(
            counter_value(behaviors.last().counters, f) as nat,
        ) + seq!['\n']
    }
}

/// A counter's samples: the runtime's total, unlabelled, then one sample per
/// behavior, labelled with its name.
pub open spec fn labeled_counter_text(name: Seq<char>, status: BehaviorRuntimeStatus, f: BehaviorCounterField) -> Seq<char> {
    metric_line(name, Seq::empty(), counter_value(status.counters, f)) + behavior_samples(name, status.behaviors@, f)
}

/// Appends a counter's samples.
pub fn push_labeled_behavior_counter(
    output: &mut String,
    name: &str,
    status: &BehaviorRuntimeStatus,
    field: BehaviorCounterField,
)
    ensures
        final(output)@ == old(output)@ + labeled_counter_text(name@, *status, field),
{
    let ghost start = output@;
    let none: Vec<(String, String)> = Vec::new();
    push_metric(output, name, &none, counter_of(&status.counters, field));
    assert(none@ =~= Seq::<(String, String)>::empty());
    let ghost mid = output@;
    let mut i: usize = 0;
    assert(status.behaviors@.take(0) =~= Seq::<crate::runtime_behavior::BehaviorRuntimeBehaviorStatus>::empty());
    while i < status.behaviors.len()
        invariant
            i <= status.behaviors@.len(),
            output@ == mid + behavior_samples(name@, status.behaviors@.take(i as int), field),
        decreases status.behaviors@.len() - i,
    {
        proof {
            assert(status.behaviors@.take(i + 1).drop_last() =~= status.behaviors@.take(i as int));
            assert(status.behaviors@.take(i + 1).last() == status.behaviors@[i as int]);
        }
        let b = &status.behaviors[i];
        let mut labels: Vec<(String, String)> = Vec::new();
        labels.push((crate::text::owned("behavior"), b.name.clone()));
        let ghost before = output@;
        push_metric(output, name, &labels, counter_of(&b.counters, field));
        proof {
            reveal_strlit("behavior");
            reveal_strlit("=\"");
            reveal_strlit("behavior=\"");
            let l = labels@;
            assert(l.drop_last() =~= Seq::<(String, String)>::empty());
            assert(labels_text(l) =~= "behavior"@ + "=\""@ + escape_label(b.name@) + seq!['"']);
        }
        i = i + 1;
        assert(output@ =~= mid + behavior_samples(name@, status.behaviors@.take(i as int), field));
    }
    assert(status.behaviors@.take(i as int) =~= status.behaviors@);
}


/// The help line, the type line and the samples of a behavior counter.
pub open spec fn counter_block(
    name: Seq<char>,
    help: Seq<char>,
    status: BehaviorRuntimeStatus,
    f: BehaviorCounterField,
) -> Seq<char> {
    help_line(name, help) + type_line(name, "counter"@) + labeled_counter_text(name, status, f)
}

fn push_counter_block(
    output: &mut String,
    name: &str,
    help: &str,
    status: &BehaviorRuntimeStatus,
    field: BehaviorCounterField,
)
    ensures
        final(output)@ == old(output)@ + counter_block(name@, help@, *status, field),
{
    push_metric_help(output, name, help);
    push_metric_type(output, name, "counter");
    push_labeled_behavior_counter(output, name, status, field);
    assert(final(output)@ =~= old(output)@ + counter_block(name@, help@, *status, field));
}

/// The behavior runtime's counters: invocations, successes, unknown-message
/// invocations, guest errors, command rejections, and instances created,
/// reused and discarded, each with its help and type lines.
pub open spec fn behavior_counter_metrics(status: BehaviorRuntimeStatus) -> Seq<char> {
    counter_block("nextdb_behavior_invocations_total"@, "Total loaded behavior invocation attempts."@, status, BehaviorCounterField::Invocations) + counter_block("nextdb_behavior_successes_total"@, "Total behavior invocations that returned valid output and were returned to the resident pool."@, status, BehaviorCounterField::Successes) + counter_block("nextdb_behavior_unknown_message_invocations_total"@, "Total behavior invocations routed to on_unknown_message."@, status, BehaviorCounterField::UnknownMessageInvocations) + counter_block("nextdb_behavior_guest_errors_total"@, "Total behavior guest traps, ABI errors, or entrypoint errors."@, status, BehaviorCounterField::GuestErrors) + counter_block("nextdb_behavior_command_rejections_total"@, "Total behavior outputs rejected by host command capability checks."@, status, BehaviorCounterField::CommandRejections) + counter_block("nextdb_behavior_instances_created_total"@, "Total resident behavior Wasm instances created."@, status, BehaviorCounterField::InstancesCreated) + counter_block("nextdb_behavior_instances_reused_total"@, "Total behavior Wasm instances reused from the resident pool."@, status, BehaviorCounterField::InstancesReused) + counter_block("nextdb_behavior_instances_discarded_total"@, "Total behavior Wasm instances discarded instead of returned to the resident pool."@, status, BehaviorCounterField::InstancesDiscarded)
}

/// Appends the behavior runtime's counters.
pub fn push_behavior_counter_metrics(output: &mut String, status: &BehaviorRuntimeStatus)
    ensures
        final(output)@ == old(output)@ + behavior_counter_metrics(*status),
{
    let ghost start = output@;
    push_counter_block(output, "nextdb_behavior_invocations_total", "Total loaded behavior invocation attempts.", status, BehaviorCounterField::Invocations);
    push_counter_block(output, "nextdb_behavior_successes_total", "Total behavior invocations that returned valid output and were returned to the resident pool.", status, BehaviorCounterField::Successes);
    push_counter_block(output, "nextdb_behavior_unknown_message_invocations_total", "Total behavior invocations routed to on_unknown_message.", status, BehaviorCounterField::UnknownMessageInvocations);
    push_counter_block(output, "nextdb_behavior_guest_errors_total", "Total behavior guest traps, ABI errors, or entrypoint errors.", status, BehaviorCounterField::GuestErrors);
    push_counter_block(output, "nextdb_behavior_command_rejections_total", "Total behavior outputs rejected by host command capability checks.", status, BehaviorCounterField::CommandRejections);
    push_counter_block(output, "nextdb_behavior_instances_created_total", "Total resident behavior Wasm instances created.", status, BehaviorCounterField::InstancesCreated);
    push_counter_block(output, "nextdb_behavior_instances_reused_total", "Total behavior Wasm instances reused from the resident pool.", status, BehaviorCounterField::InstancesReused);
    push_counter_block(output, "nextdb_behavior_instances_discarded_total", "Total behavior Wasm instances discarded instead of returned to the resident pool.", status, BehaviorCounterField::InstancesDiscarded);
    assert(final(output)@ =~= start + behavior_counter_metrics(*status));
}

} // verus!
