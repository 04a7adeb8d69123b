//! The preflight report: what a prompt needs and the environment lacks.

use vstd::prelude::*;
use vstd::string::*;

#[allow(unused_imports)]
use crate::text::texts;

verus! {

/// Two capabilities that exclude each other.
#[derive(Debug, PartialEq, Eq)]
pub struct Conflict {
    pub first: String,
    pub second: String,
}

/// A conflict as mathematics sees it.
pub struct ConflictView {
    pub first: Seq<char>,
    pub second: Seq<char>,
}

impl View for Conflict {
    type V = ConflictView;

    open spec fn view(&self) -> ConflictView {
        ConflictView { first: self.first@, second: self.second@ }
    }
}

/// What was checked of a role.
#[derive(Debug, Clone, Copy, PartialEq, Eq, Structural)]
pub enum RequirementCheck {
    /// The smallest context the role works with.
    ContextMinimum,
    /// A keyword that the model must honour.
    HardKeyword,
    /// Anything else.
    Other,
}

/// A requirement of a role that the current model does not meet.
#[derive(Debug, PartialEq, Eq)]
pub struct UnmetRequirement {
    pub role: String,
    pub check: RequirementCheck,
    /// What the role requires, as displayed.
    pub required: String,
    /// What the model has instead, as displayed.
    pub actual: String,
}

/// A requirement as mathematics sees it.
pub struct UnmetView {
    pub role: Seq<char>,
    pub check: RequirementCheck,
    pub required: Seq<char>,
    pub actual: Seq<char>,
}

impl View for UnmetRequirement {
    type V = UnmetView;

    open spec fn view(&self) -> UnmetView {
        UnmetView {
            role: self.role@,
            check: self.check,
            required: self.required@,
            actual: self.actual@,
        }
    }
}

/// The preflight report on a prompt.
#[derive(Debug, PartialEq, Eq)]
pub struct Requirements {
    /// Whether the prompt can run, as the engine judges it.
    pub satisfied: bool,
    /// The ids of the capabilities that are required and missing.
    pub missing_required: Vec<String>,
    /// The capabilities that cannot be activated together.
    pub conflicts: Vec<Conflict>,
    /// The requirements that the current model does not meet.
    pub unmet_requirements: Vec<UnmetRequirement>,
}

/// A report as mathematics sees it.
#[verifier::ext_equal]
pub struct RequirementsView {
    pub satisfied: bool,
    pub missing_required: Seq<Seq<char>>,
    pub conflicts: Seq<ConflictView>,
    pub unmet_requirements: Seq<UnmetView>,
}

impl View for Requirements {
    type V = RequirementsView;

    open spec fn view(&self) -> RequirementsView {
        RequirementsView {
            satisfied: self.satisfied,
            missing_required: texts(self.missing_required@),
            conflicts: Seq::new(self.conflicts@.len(), |i: int| self.conflicts@[i]@),
            unmet_requirements: Seq::new(
                self.unmet_requirements@.len(),
                |i: int| self.unmet_requirements@[i]@,
            ),
        }
    }
}

impl Default for Requirements {
    /// The report on a prompt that asks for nothing.
    fn default() -> (requirements: Requirements)
        ensures
            requirements@.satisfied,
            requirements@.missing_required.len() == 0,
            requirements@.conflicts.len() == 0,
            requirements@.unmet_requirements.len() == 0,
    {
        Requirements {
            satisfied: true,
            missing_required: Vec::new(),
            conflicts: Vec::new(),
            unmet_requirements: Vec::new(),
        }
    }
}

/// The line about a capability that is missing.
pub open spec fn missing_line(id: Seq<char>) -> Seq<char> {
    "missing required capability: "@ + id
}

/// The line about two capabilities in conflict.
pub open spec fn conflict_line(conflict: ConflictView) -> Seq<char> {
    "conflicting capabilities: "@ + conflict.first + " and "@ + conflict.second
        + " cannot be activated together; declare one or the other"@
}

/// The line about a requirement that is not met.
pub open spec fn unmet_line(unmet: UnmetView) -> Seq<char> {
    match unmet.check {
        RequirementCheck::ContextMinimum => "role '"@ + unmet.role
            + "': requires a context of at least "@ + unmet.required
            + " tokens; the current model provides "@ + unmet.actual,
        RequirementCheck::HardKeyword => "role '"@ + unmet.role + "': requires '"@ + unmet.required
            + "'; the current model's thinking capability is "@ + unmet.actual,
        RequirementCheck::Other => "role '"@ + unmet.role + "': requires "@ + unmet.required
            + "; the current model provides "@ + unmet.actual,
    }
}

/// One line per gap: what is missing, what is in conflict, what is not met.
pub open spec fn gaps(requirements: RequirementsView) -> Seq<Seq<char>> {
    Seq::new(
        requirements.missing_required.len(),
        |i: int| missing_line(requirements.missing_required[i]),
    ) + Seq::new(
        requirements.conflicts.len(),
        |i: int| conflict_line(requirements.conflicts[i]),
    ) + Seq::new(
        requirements.unmet_requirements.len(),
        |i: int| unmet_line(requirements.unmet_requirements[i]),
    )
}

/// The lines as the items of a list.
pub open spec fn listed(lines: Seq<Seq<char>>) -> Seq<char>
    decreases lines.len(),
{
    if lines.len() == 0 {
        Seq::empty()
    } else {
        listed(lines.drop_last()) + ("\n- "@ + lines.last())
    }
}

/// The notice that a prompt cannot run.
pub open spec fn refusal(requirements: RequirementsView) -> Seq<char> {
    "the environment cannot satisfy this prompt:"@ + listed(gaps(requirements))
}

impl Conflict {
    fn line(&self) -> (text: String)
        ensures
            text@ == conflict_line(self@),
    {
        "conflicting capabilities: ".to_owned().concat(self.first.as_str()).concat(" and ").concat(
            self.second.as_str(),
        ).concat(" cannot be activated together; declare one or the other")
    }
}

impl UnmetRequirement {
    fn line(&self) -> (text: String)
        ensures
            text@ == unmet_line(self@),
    {
        let role = "role '".to_owned().concat(self.role.as_str());
        match self.check {
            RequirementCheck::ContextMinimum => role.concat(
                "': requires a context of at least ",
            ).concat(self.required.as_str()).concat(
                " tokens; the current model provides ",
            ).concat(self.actual.as_str()),
            RequirementCheck::HardKeyword => role.concat("': requires '").concat(
                self.required.as_str(),
            ).concat("'; the current model's thinking capability is ").concat(
                self.actual.as_str(),
            ),
            RequirementCheck::Other => role.concat("': requires ").concat(
                self.required.as_str(),
            ).concat("; the current model provides ").concat(self.actual.as_str()),
        }
    }
}

impl Requirements {
    /// Whether the prompt can run, as the engine judges it.
    pub fn is_satisfied(&self) -> (satisfied: bool)
        ensures
            satisfied == self@.satisfied,
    {
        self.satisfied
    }

    /// One line per gap.
    fn gap_lines(&self) -> (lines: Vec<String>)
        ensures
            texts(lines@) == gaps(self@),
    {
        let ghost all = gaps(self@);
        let mut lines: Vec<String> = Vec::new();
        let mut next: usize = 0;
        while next < self.missing_required.len()
            invariant
                all == gaps(self@),
                next <= self.missing_required@.len(),
                lines@.len() == next,
                forall|i: int| 0 <= i < next ==> (#[trigger] lines@[i])@ == all[i],
            decreases self.missing_required@.len() - next,
        {
            lines.push(
                "missing required capability: ".to_owned().concat(
                    self.missing_required[next].as_str(),
                ),
            );
            next += 1;
        }
        next = 0;
        while next < self.conflicts.len()
            invariant
                all == gaps(self@),
                next <= self.conflicts@.len(),
                lines@.len() == self.missing_required@.len() + next,
                forall|i: int| 0 <= i < lines@.len() ==> (#[trigger] lines@[i])@ == all[i],
            decreases self.conflicts@.len() - next,
        {
            lines.push(self.conflicts[next].line());
            next += 1;
        }
        next = 0;
        while next < self.unmet_requirements.len()
            invariant
                all == gaps(self@),
                next <= self.unmet_requirements@.len(),
                lines@.len() == self.missing_required@.len() + self.conflicts@.len() + next,
                forall|i: int| 0 <= i < lines@.len() ==> (#[trigger] lines@[i])@ == all[i],
            decreases self.unmet_requirements@.len() - next,
        {
            lines.push(self.unmet_requirements[next].line());
            next += 1;
        }
        proof {
            assert(texts(lines@) =~= all);
        }
        lines
    }
}

/// Renders an unsatisfied preflight report, one line per gap with required
/// versus actual.
pub fn render_requirements(requirements: &Requirements) -> (notice: String)
    ensures
        notice@ == refusal(requirements@),
{
    let ghost head = "the environment cannot satisfy this prompt:"@;
    let ghost all = gaps(requirements@);
    let mut notice = "the environment cannot satisfy this prompt:".to_owned();
    let lines = requirements.gap_lines();
    let mut next: usize = 0;
    proof {
        assert(notice@ =~= head + listed(all.take(0)));
    }
    while next < lines.len()
        invariant
            texts(lines@) == all,
            next <= lines@.len(),
            notice@ == head + listed(all.take(next as int)),
        decreases lines@.len() - next,
    {
        notice.append("\n- ");
        notice.append(lines[next].as_str());
        proof {
            let taken = all.take(next + 1);
            assert(taken.drop_last() =~= all.take(next as int));
            assert(all[next as int] == lines@[next as int]@);
            assert(notice@ =~= head + listed(taken));
        }
        next += 1;
    }
    proof {
        assert(all.take(next as int) =~= all);
    }
    notice
}

/// Every gap has a line of its own in the notice.
pub proof fn law_every_gap_is_listed(requirements: RequirementsView)
    ensures
        gaps(requirements).len() == requirements.missing_required.len()
            + requirements.conflicts.len() + requirements.unmet_requirements.len(),
        forall|id: Seq<char>|
            requirements.missing_required.contains(id) ==> #[trigger] shows(
                refusal(requirements),
                missing_line(id),
            ),
        forall|conflict: ConflictView|
            requirements.conflicts.contains(conflict) ==> #[trigger] shows(
                refusal(requirements),
                conflict_line(conflict),
            ),
        forall|unmet: UnmetView|
            requirements.unmet_requirements.contains(unmet) ==> #[trigger] shows(
                refusal(requirements),
                unmet_line(unmet),
            ),
{
    let all = gaps(requirements);
    let missing = requirements.missing_required;
    let conflicts = requirements.conflicts;
    let unmets = requirements.unmet_requirements;
    let head = "the environment cannot satisfy this prompt:"@;
    assert forall|id: Seq<char>| missing.contains(id) implies #[trigger] shows(
        refusal(requirements),
        missing_line(id),
    ) by {
        let i = choose|i: int| 0 <= i < missing.len() && missing[i] == id;
        lemma_listed(head, all, i);
    }
    assert forall|conflict: ConflictView| conflicts.contains(conflict) implies #[trigger] shows(
        refusal(requirements),
        conflict_line(conflict),
    ) by {
        let i = choose|i: int| 0 <= i < conflicts.len() && conflicts[i] == conflict;
        lemma_listed(head, all, missing.len() + i);
    }
    assert forall|unmet: UnmetView| unmets.contains(unmet) implies #[trigger] shows(
        refusal(requirements),
        unmet_line(unmet),
    ) by {
        let i = choose|i: int| 0 <= i < unmets.len() && unmets[i] == unmet;
        lemma_listed(head, all, missing.len() + conflicts.len() + i);
    }
}

/// Whether `line` is an item of the list in `notice`.
pub open spec fn shows(notice: Seq<char>, line: Seq<char>) -> bool {
    exists|before: Seq<char>, after: Seq<char>|
        notice == #[trigger] (before + ("\n- "@ + line) + after)
}

/// Each line of a list is shown by it.
proof fn lemma_listed(head: Seq<char>, lines: Seq<Seq<char>>, i: int)
    requires
        0 <= i < lines.len(),
    ensures
        shows(head + listed(lines), lines[i]),
    decreases lines.len(),
{
    let item = "\n- "@ + lines.last();
    let shorter = lines.drop_last();
    if i == lines.len() - 1 {
        assert(head + listed(lines) =~= (head + listed(shorter)) + ("\n- "@ + lines[i])
            + Seq::<char>::empty());
    } else {
        lemma_listed(head, shorter, i);
        let (before, after) = choose|before: Seq<char>, after: Seq<char>|
            head + listed(shorter) == #[trigger] (before + ("\n- "@ + shorter[i]) + after);
        let whole = head + listed(lines);
        assert(whole =~= (head + listed(shorter)) + item);
        assert(shorter[i] == lines[i]);
        assert(whole =~= before + ("\n- "@ + lines[i]) + (after + item));
    }
}

/// The notice grows by one line per gap, and by nothing else: first what is
/// missing, then what is in conflict, then what is not met, each list in its
/// order.
pub proof fn law_each_gap_adds_a_line(
    satisfied: bool,
    missing: Seq<Seq<char>>,
    id: Seq<char>,
    conflicts: Seq<ConflictView>,
    conflict: ConflictView,
    unmets: Seq<UnmetView>,
    unmet: UnmetView,
)
    ensures
        ({
            let notice = |m: Seq<Seq<char>>, c: Seq<ConflictView>, u: Seq<UnmetView>|
                refusal(
                    RequirementsView {
                        satisfied,
                        missing_required: m,
                        conflicts: c,
                        unmet_requirements: u,
                    },
                );
            &&& notice(Seq::empty(), Seq::empty(), Seq::empty())
                == "the environment cannot satisfy this prompt:"@
            &&& notice(missing.push(id), Seq::empty(), Seq::empty()) == notice(
                missing,
                Seq::empty(),
                Seq::empty(),
            ) + "\n- missing required capability: "@ + id
            &&& notice(missing, conflicts.push(conflict), Seq::empty()) == notice(
                missing,
                conflicts,
                Seq::empty(),
            ) + "\n- conflicting capabilities: "@ + conflict.first + " and "@ + conflict.second
                + " cannot be activated together; declare one or the other"@
            &&& notice(missing, conflicts, unmets.push(unmet)) == notice(
                missing,
                conflicts,
                unmets,
            ) + "\n- role '"@ + unmet.role + "': requires "@ + match unmet.check {
                RequirementCheck::ContextMinimum => "a context of at least "@ + unmet.required
                    + " tokens; the current model provides "@,
                RequirementCheck::HardKeyword => "'"@ + unmet.required
                    + "'; the current model's thinking capability is "@,
                RequirementCheck::Other => unmet.required + "; the current model provides "@,
            } + unmet.actual
        }),
{
    let with = |m: Seq<Seq<char>>, c: Seq<ConflictView>, u: Seq<UnmetView>|
        RequirementsView { satisfied, missing_required: m, conflicts: c, unmet_requirements: u };
    let head = "the environment cannot satisfy this prompt:"@;
    let no_conflict = Seq::<ConflictView>::empty();
    let no_unmet = Seq::<UnmetView>::empty();
    let none = gaps(with(Seq::empty(), no_conflict, no_unmet));
    assert(none =~= Seq::empty());
    assert(head + listed(none) =~= head);
    let a = gaps(with(missing.push(id), no_conflict, no_unmet));
    let b = gaps(with(missing, conflicts.push(conflict), no_unmet));
    let c = gaps(with(missing, conflicts, unmets.push(unmet)));
    assert(a.drop_last() =~= gaps(with(missing, no_conflict, no_unmet)));
    assert(a.last() == missing_line(id));
    assert(b.drop_last() =~= gaps(with(missing, conflicts, no_unmet)));
    assert(b.last() == conflict_line(conflict));
    assert(c.drop_last() =~= gaps(with(missing, conflicts, unmets)));
    assert(c.last() == unmet_line(unmet));
    reveal_strlit("\n- ");
    reveal_strlit("missing required capability: ");
    reveal_strlit("\n- missing required capability: ");
    reveal_strlit("conflicting capabilities: ");
    reveal_strlit("\n- conflicting capabilities: ");
    reveal_strlit("role '");
    reveal_strlit("\n- role '");
    reveal_strlit("': requires ");
    reveal_strlit("a context of at least ");
    reveal_strlit("': requires a context of at least ");
    reveal_strlit("'");
    reveal_strlit("': requires '");
    assert("\n- "@ + "missing required capability: "@ =~= "\n- missing required capability: "@);
    assert("\n- "@ + "conflicting capabilities: "@ =~= "\n- conflicting capabilities: "@);
    assert("\n- "@ + "role '"@ =~= "\n- role '"@);
    assert("': requires "@ + "a context of at least "@ =~= "': requires a context of at least "@);
    assert("': requires "@ + "'"@ =~= "': requires '"@);
    assert(head + (listed(a.drop_last()) + ("\n- "@ + missing_line(id))) =~= head + listed(
        a.drop_last(),
    ) + "\n- missing required capability: "@ + id);
    assert(head + (listed(b.drop_last()) + ("\n- "@ + conflict_line(conflict))) =~= head + listed(
        b.drop_last(),
    ) + "\n- conflicting capabilities: "@ + conflict.first + " and "@ + conflict.second
        + " cannot be activated together; declare one or the other"@);
    assert(head + (listed(c.drop_last()) + ("\n- "@ + unmet_line(unmet))) =~= head + listed(
        c.drop_last(),
    ) + "\n- role '"@ + unmet.role + "': requires "@ + match unmet.check {
        RequirementCheck::ContextMinimum => "a context of at least "@ + unmet.required
            + " tokens; the current model provides "@,
        RequirementCheck::HardKeyword => "'"@ + unmet.required
            + "'; the current model's thinking capability is "@,
        RequirementCheck::Other => unmet.required + "; the current model provides "@,
    } + unmet.actual);
}

/// A preflight report is seen whole.
pub proof fn law_report_is_seen_whole(requirements: Requirements)
    ensures
        requirements@.satisfied == requirements.satisfied,
        requirements@.missing_required.len() == requirements.missing_required@.len(),
        forall|i: int| #![trigger requirements@.missing_required[i]]
            0 <= i < requirements.missing_required@.len() ==> requirements@.missing_required[i]
                == requirements.missing_required@[i]@,
        requirements@.conflicts.len() == requirements.conflicts@.len(),
        forall|i: int| #![trigger requirements@.conflicts[i]]
            0 <= i < requirements.conflicts@.len() ==> {
                &&& requirements@.conflicts[i].first == requirements.conflicts@[i].first@
                &&& requirements@.conflicts[i].second == requirements.conflicts@[i].second@
            },
        requirements@.unmet_requirements.len() == requirements.unmet_requirements@.len(),
        forall|i: int| #![trigger requirements@.unmet_requirements[i]]
            0 <= i < requirements.unmet_requirements@.len() ==> {
                let seen = requirements@.unmet_requirements[i];
                let unmet = requirements.unmet_requirements@[i];
                &&& seen.role == unmet.role@
                &&& seen.check == unmet.check
                &&& seen.required == unmet.required@
                &&& seen.actual == unmet.actual@
            },
{
}

} // verus!
