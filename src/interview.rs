//! The interviews that build a scenario document, one tagged answer each.

use vstd::prelude::*;
use vstd::string::*;
use crate::chat::string_views;

verus! {

/// The segments joined, with a newline between each two.
pub open spec fn joined(segments: Seq<Seq<char>>) -> Seq<char>
    decreases segments.len(),
{
    if segments.len() == 0 {
        seq![]
    } else if segments.len() == 1 {
        segments[0]
    } else {
        joined(segments.drop_last()) + "\n"@ + segments.last()
    }
}

/// An answer wrapped in its tag: `<tag>`, newline, answer, newline, `</tag>`, newline.
pub open spec fn tagged(tag: Seq<char>, answer: Seq<char>) -> Seq<char> {
    "<"@ + tag + ">\n"@ + answer + "\n</"@ + tag + ">\n"@
}

/// The scenario document made of the answers so far, each in the tag of its
/// interview, in interview order.
pub open spec fn scenario(tags: Seq<Seq<char>>, answers: Seq<Seq<char>>) -> Seq<char>
    decreases answers.len(),
{
    if answers.len() == 0 {
        seq![]
    } else {
        scenario(tags, answers.drop_last()) + tagged(
            tags[answers.len() - 1],
            answers.last(),
        )
    }
}

/// One interview: what it is about, how it is introduced, the segments of
/// its instructions, and the tag its answer is filed under.
#[derive(Clone, Debug, PartialEq, Eq)]
pub struct RolePlayingInterview {
    pub kind: String,
    pub introduction: String,
    pub system: Vec<String>,
    pub xml_tag: String,
}

/// The tags of a list of interviews.
pub open spec fn tags_of(ints: Seq<RolePlayingInterview>) -> Seq<Seq<char>> {
    ints.map_values(|i: RolePlayingInterview| i.xml_tag@)
}

/// The system message of an interview: its instructions, joined by
/// newlines, followed by the document so far.
pub open spec fn seed(interview: RolePlayingInterview, document: Seq<char>) -> Seq<char> {
    joined(string_views(interview.system@)) + document
}

/// The strings joined, with a newline between each two.
pub fn join_lines(segments: &Vec<String>) -> (r: String)
    ensures
        r@ == joined(string_views(segments@)),
{
    let mut out = String::new();
    let mut i: usize = 0;
    while i < segments.len()
        invariant
            i <= segments@.len(),
            out@ == joined(string_views(segments@).subrange(0, i as int)),
        decreases segments@.len() - i,
    {
        let ghost all = string_views(segments@);
        assert(all.subrange(0, i + 1).drop_last() =~= all.subrange(0, i as int));
        if i > 0 {
            out.append("\n");
        }
        out.append(segments[i].as_str());
        i += 1;
    }
    assert(string_views(segments@).subrange(0, segments@.len() as int) =~= string_views(
        segments@,
    ));
    out
}

/// Interviews run in order, each answer added to the document that later
/// interviews start from.
pub struct Interviews {
    pub interviews: Vec<RolePlayingInterview>,
    pub answers: Vec<String>,
    pub document: String,
}

impl Interviews {
    /// No more answers than interviews, and the document is made of them.
    pub open spec fn wf(&self) -> bool {
        &&& self.answers@.len() <= self.interviews@.len()
        &&& self.document@ == scenario(tags_of(self.interviews@), string_views(self.answers@))
    }

    /// Interviews not yet begun.
    pub fn new(interviews: Vec<RolePlayingInterview>) -> (r: Self)
        ensures
            r.wf(),
            r.interviews == interviews,
            r.answers@.len() == 0,
            r.document@.len() == 0,
    {
        let r = Interviews { interviews, answers: Vec::new(), document: String::new() };
        assert(string_views(r.answers@) =~= seq![]);
        r
    }

    /// Whether every interview has its answer.
    pub fn is_done(&self) -> (r: bool)
        ensures
            r == (self.answers@.len() >= self.interviews@.len()),
    {
        self.answers.len() >= self.interviews.len()
    }

    /// The system message for the next interview, or `None` when all are done.
    pub fn next_system(&self) -> (r: Option<String>)
        requires
            self.wf(),
        ensures
            self.answers@.len() == self.interviews@.len() ==> r is None,
            self.answers@.len() < self.interviews@.len() ==> (r matches Some(s) && s@ == seed(
                self.interviews@[self.answers@.len() as int],
                self.document@,
            )),
    {
        let k = self.answers.len();
        if k >= self.interviews.len() {
            return None;
        }
        let mut s = join_lines(&self.interviews[k].system);
        s.append(self.document.as_str());
        Some(s)
    }

    /// File the next interview's answer under its tag.
    pub fn record(&mut self, answer: String)
        requires
            old(self).wf(),
            old(self).answers@.len() < old(self).interviews@.len(),
        ensures
            final(self).wf(),
            final(self).interviews == old(self).interviews,
            final(self).answers@ == old(self).answers@.push(answer),
            final(self).document@ == old(self).document@ + tagged(
                old(self).interviews@[old(self).answers@.len() as int].xml_tag@,
                answer@,
            ),
    {
        let k = self.answers.len();
        let tag = self.interviews[k].xml_tag.as_str();
        self.document.append("<");
        self.document.append(tag);
        self.document.append(">\n");
        self.document.append(answer.as_str());
        self.document.append("\n</");
        self.document.append(tag);
        self.document.append(">\n");
        let ghost before = old(self).document@;
        assert(self.document@ =~= before + tagged(tag@, answer@));
        self.answers.push(answer);
        assert(string_views(self.answers@).drop_last() =~= string_views(old(self).answers@));
    }
}

/// The document made of the first `k` answers begins the document made of
/// all of them: a later answer never changes what earlier interviews filed.
pub proof fn lemma_scenario_prefix(tags: Seq<Seq<char>>, answers: Seq<Seq<char>>, k: nat)
    requires
        k <= answers.len(),
    ensures
        scenario(tags, answers.subrange(0, k as int)).is_prefix_of(scenario(tags, answers)),
    decreases answers.len(),
{
    if k == answers.len() {
        assert(answers.subrange(0, k as int) =~= answers);
    } else {
        let shorter = answers.drop_last();
        lemma_scenario_prefix(tags, shorter, k);
        assert(shorter.subrange(0, k as int) =~= answers.subrange(0, k as int));
        let a = scenario(tags, answers.subrange(0, k as int));
        let b = scenario(tags, shorter);
        assert(scenario(tags, answers) == b + tagged(tags[answers.len() - 1], answers.last()));
        assert((b + tagged(tags[answers.len() - 1], answers.last())).subrange(0, a.len() as int)
            =~= b.subrange(0, a.len() as int));
    }
}

/// The system message of interview `k` is fixed by the first `k` answers:
/// answers given later, in any form, do not reach it.
pub proof fn lemma_seed_sees_earlier_answers_only(
    ints: Seq<RolePlayingInterview>,
    a: Seq<Seq<char>>,
    b: Seq<Seq<char>>,
    k: nat,
)
    requires
        k < ints.len(),
        k <= a.len(),
        k <= b.len(),
        a.subrange(0, k as int) == b.subrange(0, k as int),
    ensures
        seed(ints[k as int], scenario(tags_of(ints), a.subrange(0, k as int))) == seed(
            ints[k as int],
            scenario(tags_of(ints), b.subrange(0, k as int)),
        ),
{
}

} // verus!
