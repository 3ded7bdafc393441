//! The report on a fleet.
//!
//! A hierarchy spread across endpoints has several ways to be almost right. Each of
//! them is a line of the report, with what to do about it.

use vstd::prelude::*;

verus! {

/// One line of the report.
#[derive(Debug, PartialEq, Eq)]
pub enum Check {
    Pass(String),
    /// Works, but not the way the fleet is meant to be set up.
    Warn { note: String, fix: String },
    /// Will not work as configured.
    Fail { note: String, fix: String },
}

/// What a line of the report says.
pub enum CheckView {
    Pass(Seq<char>),
    Warn { note: Seq<char>, fix: Seq<char> },
    Fail { note: Seq<char>, fix: Seq<char> },
}

/// What lines of the report say.
pub open spec fn checks_view(checks: Seq<Check>) -> Seq<CheckView> {
    checks.map_values(|check: Check| check@)
}

/// A line of the report as text. A line that is not well is followed by what to do
/// about it.
pub open spec fn check_text(check: CheckView) -> Seq<char> {
    match check {
        CheckView::Pass(note) => "  ok    "@ + note + "\n"@,
        CheckView::Warn { note, fix } => "  warn  "@ + note + "\n          "@ + fix + "\n"@,
        CheckView::Fail { note, fix } => "  FAIL  "@ + note + "\n          "@ + fix + "\n"@,
    }
}

/// Lines of the report as text.
pub open spec fn checks_text(checks: Seq<CheckView>) -> Seq<char>
    decreases checks.len(),
{
    if checks.len() == 0 {
        Seq::empty()
    } else {
        checks_text(checks.drop_last()) + check_text(checks.last())
    }
}

impl Check {
    pub open spec fn view(&self) -> CheckView {
        match self {
            Check::Pass(note) => CheckView::Pass(note@),
            Check::Warn { note, fix } => CheckView::Warn { note: note@, fix: fix@ },
            Check::Fail { note, fix } => CheckView::Fail { note: note@, fix: fix@ },
        }
    }

    /// Writes the line.
    pub fn render(&self, into: &mut String)
        ensures
            final(into)@ == old(into)@ + check_text(self@),
    {
        let (mark, note, fix): (&str, &String, Option<&String>) = match self {
            Check::Pass(note) => ("  ok    ", note, None),
            Check::Warn { note, fix } => ("  warn  ", note, Some(fix)),
            Check::Fail { note, fix } => ("  FAIL  ", note, Some(fix)),
        };
        into.append(mark);
        into.append(note.as_str());
        if let Some(fix) = fix {
            into.append("\n          ");
            into.append(fix.as_str());
        }
        into.append("\n");
        assert(into@ =~= old(into)@ + check_text(self@));
    }

    /// Whether something will not work.
    pub fn is_failure(&self) -> (failure: bool)
        ensures
            failure == (self@ is Fail),
    {
        match self {
            Check::Fail { .. } => true,
            _ => false,
        }
    }
}

/// The sections of a report.
#[derive(Debug, PartialEq, Eq)]
pub struct Report {
    pub sections: Vec<(String, Vec<Check>)>,
}

/// What a section says.
pub struct SectionView {
    pub title: Seq<char>,
    pub checks: Seq<CheckView>,
}

/// What sections say.
pub open spec fn sections_view(sections: Seq<(String, Vec<Check>)>) -> Seq<SectionView> {
    sections.map_values(
        |section: (String, Vec<Check>)|
            SectionView { title: section.0@, checks: checks_view(section.1@) },
    )
}

/// A section as text.
pub open spec fn section_text(section: SectionView) -> Seq<char> {
    section.title + "\n"@ + checks_text(section.checks) + "\n"@
}

/// Sections as text.
pub open spec fn report_text(sections: Seq<SectionView>) -> Seq<char>
    decreases sections.len(),
{
    if sections.len() == 0 {
        Seq::empty()
    } else {
        report_text(sections.drop_last()) + section_text(sections.last())
    }
}

/// Something among the checks will not work.
pub open spec fn any_failure(checks: Seq<CheckView>) -> bool {
    exists|i: int| 0 <= i < checks.len() && #[trigger] checks[i] is Fail
}

/// Something in the report will not work.
pub open spec fn report_failed(sections: Seq<SectionView>) -> bool {
    exists|i: int| 0 <= i < sections.len() && any_failure((#[trigger] sections[i]).checks)
}

fn has_failure(checks: &Vec<Check>) -> (failed: bool)
    ensures
        failed == any_failure(checks_view(checks@)),
{
    for i in 0..checks.len()
        invariant
            forall|j: int| 0 <= j < i ==> !((#[trigger] checks@[j])@ is Fail),
    {
        if checks[i].is_failure() {
            assert(checks_view(checks@)[i as int] is Fail);
            return true;
        }
    }
    assert forall|i: int| 0 <= i < checks_view(checks@).len() implies !(#[trigger] checks_view(
        checks@,
    )[i] is Fail) by {
        assert(!(checks@[i]@ is Fail));
    }
    false
}

impl Default for Report {
    fn default() -> (report: Self)
        ensures
            report@ == Seq::<SectionView>::empty(),
    {
        let report = Report { sections: Vec::new() };
        assert(report@ =~= Seq::<SectionView>::empty());
        report
    }
}

impl Report {
    pub open spec fn view(&self) -> Seq<SectionView> {
        sections_view(self.sections@)
    }

    /// Adds a section.
    pub fn section(&mut self, title: &str, checks: Vec<Check>)
        ensures
            final(self)@ == old(self)@.push(
                SectionView { title: title@, checks: checks_view(checks@) },
            ),
    {
        self.sections.push((title.to_owned(), checks));
        assert(self@ =~= old(self)@.push(
            SectionView { title: title@, checks: checks_view(checks@) },
        ));
    }

    /// Whether something in the report will not work.
    pub fn failed(&self) -> (failed: bool)
        ensures
            failed == report_failed(self@),
    {
        for i in 0..self.sections.len()
            invariant
                forall|j: int|
                    0 <= j < i ==> !any_failure(checks_view((#[trigger] self.sections@[j]).1@)),
        {
            if has_failure(&self.sections[i].1) {
                assert(any_failure(self@[i as int].checks));
                return true;
            }
        }
        assert forall|i: int| 0 <= i < self@.len() implies !any_failure(
            (#[trigger] self@[i]).checks,
        ) by {
            assert(!any_failure(checks_view(self.sections@[i].1@)));
        }
        false
    }

    /// The report as text.
    pub fn render(&self) -> (out: String)
        ensures
            out@ == report_text(self@),
    {
        let mut out = String::new();
        let ghost says = self@;
        assert(says.take(0) =~= Seq::empty());
        for i in 0..self.sections.len()
            invariant
                says == self@,
                out@ == report_text(says.take(i as int)),
        {
            let ghost so_far = out@;
            proof {
                assert(says.take(i + 1).drop_last() =~= says.take(i as int));
                assert(says.take(i + 1).last() == says[i as int]);
            }
            render_section(&mut out, &self.sections[i].0, &self.sections[i].1);
        }
        assert(says.take(says.len() as int) =~= says);
        out
    }
}

fn render_section(out: &mut String, title: &String, checks: &Vec<Check>)
    ensures
        final(out)@ == old(out)@ + section_text(
            SectionView { title: title@, checks: checks_view(checks@) },
        ),
{
    out.append(title.as_str());
    out.append("\n");
    let ghost says = checks_view(checks@);
    let ghost head = out@;
    proof {
        assert(says.take(0) =~= Seq::empty());
        assert(head =~= head + checks_text(says.take(0)));
    }
    for i in 0..checks.len()
        invariant
            says == checks_view(checks@),
            out@ == head + checks_text(says.take(i as int)),
    {
        let ghost so_far = checks_text(says.take(i as int));
        proof {
            assert(says.take(i + 1).drop_last() =~= says.take(i as int));
            assert(says.take(i + 1).last() == checks@[i as int]@);
        }
        checks[i].render(out);
        assert(head + so_far + check_text(checks@[i as int]@) =~= head + (so_far + check_text(
            checks@[i as int]@,
        )));
    }
    assert(says.take(says.len() as int) =~= says);
    out.append("\n");
    assert(out@ =~= old(out)@ + section_text(SectionView { title: title@, checks: says }));
}

} // verus!
