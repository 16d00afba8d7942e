//! Completion candidates and inline hints for the line editor.

use vstd::prelude::*;
use vstd::string::*;

verus! {

/// What a hint means: its text, and how much of it a completion commits.
pub struct HintModel {
    pub display: Seq<char>,
    pub complete_up_to: nat,
}

/// The hint left after the first `strip` characters of `h` were typed.
pub open spec fn suffix_model(h: HintModel, strip: nat) -> HintModel {
    HintModel {
        display: h.display.subrange(strip as int, h.display.len() as int),
        complete_up_to: if h.complete_up_to >= strip {
            (h.complete_up_to - strip) as nat
        } else {
            0
        },
    }
}

/// A completion candidate or inline hint: the text shown, and the length of
/// its prefix that accepting the hint inserts.
#[derive(Clone, Debug, PartialEq, Eq, Hash)]
pub struct CommandHint {
    pub display: String,
    pub complete_up_to: usize,
}

impl View for CommandHint {
    type V = HintModel;

    open spec fn view(&self) -> HintModel {
        HintModel { display: self.display@, complete_up_to: self.complete_up_to as nat }
    }
}

impl CommandHint {
    /// The committed prefix lies within the text.
    pub open spec fn wf(&self) -> bool {
        self.complete_up_to <= self.display@.len()
    }

    /// A hint showing `text` that commits the prefix `complete_up_to` of it.
    pub fn new(text: &str, complete_up_to: &str) -> (r: Self)
        requires
            complete_up_to@.is_prefix_of(text@),
        ensures
            r.display@ == text@,
            r.complete_up_to == complete_up_to@.len(),
            r.wf(),
    {
        let n = complete_up_to.unicode_len();
        CommandHint { display: String::from_str(text), complete_up_to: n }
    }

    /// The hint with its first `strip_chars` characters removed; the committed
    /// length shrinks by as much, and never below zero.
    pub fn suffix(&self, strip_chars: usize) -> (r: Self)
        requires
            strip_chars <= self.display@.len(),
        ensures
            r@ == suffix_model(self@, strip_chars as nat),
            self.wf() ==> r.wf(),
    {
        let len = self.display.as_str().unicode_len();
        let rest = self.display.as_str().substring_char(strip_chars, len);
        let cut = if self.complete_up_to >= strip_chars {
            self.complete_up_to - strip_chars
        } else {
            0
        };
        CommandHint { display: String::from_str(rest), complete_up_to: cut }
    }

    /// The text shown for this hint.
    pub fn display(&self) -> (r: &str)
        ensures
            r@ == self.display@,
    {
        self.display.as_str()
    }

    /// The text that replaces the typed word when this candidate is chosen.
    pub fn replacement(&self) -> (r: &str)
        ensures
            r@ == self.display@,
    {
        self.display.as_str()
    }

    /// The part of the hint that accepting it inserts, if any.
    pub fn completion(&self) -> (r: Option<String>)
        requires
            self.wf(),
        ensures
            self.complete_up_to == 0 ==> r is None,
            self.complete_up_to > 0 ==> (r matches Some(s) && s@ == self.display@.subrange(
                0,
                self.complete_up_to as int,
            )),
    {
        if self.complete_up_to > 0 {
            let head = self.display.as_str().substring_char(0, self.complete_up_to);
            Some(String::from_str(head))
        } else {
            None
        }
    }
}

/// The views of a list of hints.
pub open spec fn models(hs: Seq<CommandHint>) -> Seq<HintModel> {
    hs.map_values(|h: CommandHint| h@)
}

/// Every candidate in `cmds` that begins with `typed`, in order, each with
/// the typed text stripped off.
pub open spec fn completions(cmds: Seq<HintModel>, typed: Seq<char>) -> Seq<HintModel>
    decreases cmds.len(),
{
    if cmds.len() == 0 {
        seq![]
    } else {
        let rest = completions(cmds.drop_last(), typed);
        if typed.is_prefix_of(cmds.last().display) {
            rest.push(suffix_model(cmds.last(), typed.len()))
        } else {
            rest
        }
    }
}

/// The first hint in `hints` from index `i` on whose text begins with `line`.
pub open spec fn first_hint_from(hints: Seq<HintModel>, line: Seq<char>, i: int) -> Option<
    HintModel,
>
    decreases hints.len() - i,
{
    if i < 0 || i >= hints.len() {
        None
    } else if line.is_prefix_of(hints[i].display) {
        Some(hints[i])
    } else {
        first_hint_from(hints, line, i + 1)
    }
}

/// The inline hint for `line` with the cursor at `pos`: none unless the cursor
/// ends a non-empty line; then the history's suggestion, fully committable;
/// else the first vocabulary entry that extends the line, past what is typed.
pub open spec fn hint_for(
    hints: Seq<HintModel>,
    line: Seq<char>,
    pos: nat,
    history: Option<Seq<char>>,
) -> Option<HintModel> {
    if line.len() == 0 || pos < line.len() {
        None
    } else if history is Some {
        Some(HintModel { display: history->0, complete_up_to: history->0.len() })
    } else {
        match first_hint_from(hints, line, 0) {
            Some(h) => Some(suffix_model(h, pos)),
            None => None,
        }
    }
}

/// Whether `a` begins with `b`.
fn starts_with(a: &str, b: &str) -> (r: bool)
    ensures
        r == b@.is_prefix_of(a@),
{
    let la = a.unicode_len();
    let lb = b.unicode_len();
    if lb > la {
        return false;
    }
    let mut i: usize = 0;
    while i < lb
        invariant
            lb == b@.len(),
            la == a@.len(),
            lb <= la,
            i <= lb,
            forall|k: int| 0 <= k < i ==> a@[k] == b@[k],
        decreases lb - i,
    {
        if a.get_char(i) != b.get_char(i) {
            assert(b@ != a@.subrange(0, lb as int));
            return false;
        }
        i += 1;
    }
    assert(b@ =~= a@.subrange(0, lb as int));
    true
}

/// The editor helper: a fixed vocabulary for completion and one for hints.
pub struct ShellHelper {
    pub commands: Vec<CommandHint>,
    pub hints: Vec<CommandHint>,
}

impl ShellHelper {
    /// Every hint is well formed.
    pub open spec fn wf(&self) -> bool {
        &&& forall|i: int| 0 <= i < self.commands@.len() ==> #[trigger] self.commands@[i].wf()
        &&& forall|i: int| 0 <= i < self.hints@.len() ==> #[trigger] self.hints@[i].wf()
    }

    /// The completion candidates for the text before the cursor: each command
    /// that begins with it, with that text stripped. Returns the cursor too.
    pub fn complete(&self, line: &str, pos: usize) -> (r: (usize, Vec<CommandHint>))
        requires
            pos <= line@.len(),
        ensures
            r.0 == pos,
            models(r.1@) == completions(models(self.commands@), line@.subrange(0, pos as int)),
            self.wf() ==> forall|i: int| 0 <= i < r.1@.len() ==> #[trigger] r.1@[i].wf(),
    {
        let typed = line.substring_char(0, pos);
        let mut out: Vec<CommandHint> = Vec::new();
        let mut i: usize = 0;
        while i < self.commands.len()
            invariant
                i <= self.commands@.len(),
                typed@ == line@.subrange(0, pos as int),
                typed@.len() == pos,
                models(out@) == completions(models(self.commands@).subrange(0, i as int), typed@),
                self.wf() ==> forall|k: int| 0 <= k < out@.len() ==> #[trigger] out@[k].wf(),
            decreases self.commands@.len() - i,
        {
            let ghost all = models(self.commands@);
            assert(all.subrange(0, i + 1).drop_last() =~= all.subrange(0, i as int));
            assert(all.subrange(0, i + 1).last() == self.commands@[i as int]@);
            if starts_with(self.commands[i].display.as_str(), typed) {
                let h = self.commands[i].suffix(pos);
                let ghost before = out@;
                proof {
                    if self.wf() {
                        assert(self.commands@[i as int].wf());
                    }
                }
                out.push(h);
                assert(models(out@) =~= models(before).push(h@));
            }
            i += 1;
        }
        assert(models(self.commands@).subrange(0, self.commands@.len() as int) =~= models(self.commands@));
        (pos, out)
    }

    /// The inline hint for `line` with the cursor at `pos`, given what the
    /// history suggests for it.
    pub fn hint(&self, line: &str, pos: usize, history: Option<String>) -> (r: Option<CommandHint>)
        requires
            pos <= line@.len(),
        ensures
            r matches Some(h) ==> Some(h@) == hint_for(
                models(self.hints@),
                line@,
                pos as nat,
                match history { Some(s) => Some(s@), None => None },
            ),
            r is None ==> hint_for(
                models(self.hints@),
                line@,
                pos as nat,
                match history { Some(s) => Some(s@), None => None },
            ) is None,
            self.wf() ==> (r matches Some(h) ==> h.wf()),
    {
        let len = line.unicode_len();
        if len == 0 || pos < len {
            return None;
        }
        if let Some(s) = history {
            let h = CommandHint::new(s.as_str(), s.as_str());
            return Some(h);
        }
        let ghost all = models(self.hints@);
        let mut i: usize = 0;
        while i < self.hints.len()
            invariant
                i <= self.hints@.len(),
                all == models(self.hints@),
                pos == line@.len(),
                line@.len() > 0,
                history is None,
                first_hint_from(all, line@, 0) == first_hint_from(all, line@, i as int),
            decreases self.hints@.len() - i,
        {
            assert(all[i as int] == self.hints@[i as int]@);
            if starts_with(self.hints[i].display.as_str(), line) {
                let h = self.hints[i].suffix(pos);
                proof {
                    if self.wf() {
                        assert(self.hints@[i as int].wf());
                    }
                }
                return Some(h);
            }
            i += 1;
        }
        None
    }
}

/// Whether `c` has Unicode's White_Space property.
pub open spec fn is_white_space(c: char) -> bool {
    let u = c as u32;
    (0x09 <= u <= 0x0d) || u == 0x20 || u == 0x85 || u == 0xa0 || u == 0x1680 || (0x2000 <= u
        <= 0x200a) || u == 0x2028 || u == 0x2029 || u == 0x202f || u == 0x205f || u == 0x3000
}

/// Whether `c` is white space, as `is_white_space` says.
pub fn white_space(c: char) -> (r: bool)
    ensures
        r == is_white_space(c),
{
    let u = c as u32;
    (0x09 <= u && u <= 0x0d) || u == 0x20 || u == 0x85 || u == 0xa0 || u == 0x1680 || (0x2000 <= u
        && u <= 0x200a) || u == 0x2028 || u == 0x2029 || u == 0x202f || u == 0x205f || u == 0x3000
}

/// The tab key's rule: right after white space it inserts a literal tab;
/// elsewhere it completes.
pub struct TabEventHandler;

impl TabEventHandler {
    /// Whether a tab typed with the cursor at `pos` in `line` is inserted as
    /// is, rather than starting completion.
    pub fn inserts_tab(&self, line: &str, pos: usize) -> (r: bool)
        requires
            pos <= line@.len(),
        ensures
            r == (pos > 0 && is_white_space(line@[pos - 1])),
    {
        if pos == 0 {
            false
        } else {
            white_space(line.get_char(pos - 1))
        }
    }
}

} // verus!
