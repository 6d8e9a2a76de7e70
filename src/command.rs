use vstd::prelude::*;
use vstd::string::{StrSliceExecFns, StringExecFns};

verus! {

/// The words that `str::split_whitespace` finds in a text.
pub uninterp spec fn whitespace_words(s: Seq<char>) -> Seq<Seq<char>>;

/// The texts of a sequence of strings.
pub open spec fn texts(v: Seq<String>) -> Seq<Seq<char>> {
    v.map_values(|t: String| t@)
}

/// Relies on `str::split_whitespace`: the words of a text, in order, each
/// one owned. A text with no characters has no words.
#[verifier::external_body]
fn split_words(s: &str) -> (r: Vec<String>)
    ensures
        texts(r@) == whitespace_words(s@),
        s@.len() == 0 ==> r@.len() == 0,
{
    s.split_whitespace().map(|w| w.to_string()).collect()
}

/// Words joined with one space between two of them
/// (a word that leaves the text so far empty adds no space).
pub open spec fn joined_words(ws: Seq<Seq<char>>) -> Seq<char>
    decreases ws.len(),
{
    if ws.len() == 0 {
        Seq::<char>::empty()
    } else {
        let head = joined_words(ws.drop_last());
        if head.len() == 0 {
            ws.last()
        } else {
            head + seq![' '] + ws.last()
        }
    }
}

/// The free-text tail of a command: the words joined, or nothing when that
/// gives an empty text.
pub open spec fn text_tail(ws: Seq<Seq<char>>) -> Option<Seq<char>> {
    if joined_words(ws).len() == 0 {
        None
    } else {
        Some(joined_words(ws))
    }
}

/// The words of `ws` from index `from` on (none when `from` is past the end).
pub open spec fn words_from(ws: Seq<Seq<char>>, from: int) -> Seq<Seq<char>> {
    if from <= ws.len() {
        ws.subrange(from, ws.len() as int)
    } else {
        Seq::<Seq<char>>::empty()
    }
}

/// Joins the words of `parts` from index `from` on with single spaces;
/// `None` when that gives an empty text.
pub fn parse_text_parts(parts: &Vec<String>, from: usize) -> (r: Option<String>)
    ensures
        r is None <==> text_tail(words_from(texts(parts@), from as int)) is None,
        r is Some ==> Some(r->0@) == text_tail(words_from(texts(parts@), from as int)),
{
    let ghost ws = texts(parts@);
    let mut text_raw = String::new();
    let mut i: usize = from;
    if i > parts.len() {
        i = parts.len();
    }
    let ghost start = i as int;
    proof {
        assert(ws.len() == parts@.len());
        assert(words_from(ws, from as int) =~= ws.subrange(start, ws.len() as int));
        assert(ws.subrange(start, start) =~= Seq::<Seq<char>>::empty());
    }
    while i < parts.len()
        invariant
            0 <= start <= i <= parts@.len(),
            ws == texts(parts@),
            ws.len() == parts@.len(),
            text_raw@ == joined_words(ws.subrange(start, i as int)),
        decreases parts@.len() - i,
    {
        let part: &String = &parts[i];
        proof {
            assert(ws[i as int] == part@);
            assert(ws.subrange(start, i as int + 1).drop_last() =~= ws.subrange(start, i as int));
            assert(ws.subrange(start, i as int + 1).last() == part@);
            reveal_strlit(" ");
        }
        if !text_raw.as_str().is_empty() {
            text_raw.append(" ");
        }
        text_raw.append(part.as_str());
        i = i + 1;
    }
    if text_raw.as_str().is_empty() {
        None
    } else {
        Some(text_raw)
    }
}

/// Whether `c` is a decimal digit.
pub open spec fn is_digit(c: char) -> bool {
    '0' <= c && c <= '9'
}

/// The value of a decimal digit.
pub open spec fn digit_value(c: char) -> nat {
    (c as u32 - '0' as u32) as nat
}

/// The value of a run of decimal digits.
pub open spec fn digits_value(s: Seq<char>) -> nat
    decreases s.len(),
{
    if s.len() == 0 {
        0
    } else {
        digits_value(s.drop_last()) * 10 + digit_value(s.last())
    }
}

/// A text without its leading `+`, if it has one.
pub open spec fn unsigned_part(s: Seq<char>) -> Seq<char> {
    if s.len() > 0 && s[0] == '+' {
        s.drop_first()
    } else {
        s
    }
}

/// An unsigned decimal number as `str::parse::<usize>` reads it: an
/// optional `+`, then one digit or more, of a value that fits in `usize`.
pub open spec fn decimal_value(s: Seq<char>) -> Option<usize> {
    let d = unsigned_part(s);
    if d.len() > 0 && (forall|i: int| 0 <= i < d.len() ==> is_digit(#[trigger] d[i]))
        && digits_value(d) <= usize::MAX {
        Some(digits_value(d) as usize)
    } else {
        None
    }
}

/// A longer run of digits is worth at least as much as its prefix.
proof fn lemma_digits_value_grows(s: Seq<char>, k: int)
    requires
        0 <= k <= s.len(),
        forall|i: int| 0 <= i < s.len() ==> is_digit(#[trigger] s[i]),
    ensures
        digits_value(s.subrange(0, k)) <= digits_value(s),
    decreases s.len() - k,
{
    if k < s.len() {
        lemma_digits_value_grows(s, k + 1);
        assert(s.subrange(0, k + 1).drop_last() =~= s.subrange(0, k));
        assert(is_digit(s[k]));
    } else {
        assert(s.subrange(0, k) =~= s);
    }
}

/// Reads an unsigned decimal number: an optional `+` and digits, `None`
/// for anything else or for a value past `usize::MAX`.
pub fn parse_index(s: &str) -> (r: Option<usize>)
    ensures
        r == decimal_value(s@),
{
    let n = s.unicode_len();
    let mut i: usize = 0;
    if n > 0 && s.get_char(0) == '+' {
        i = 1;
    }
    let ghost start = i as int;
    let ghost d = s@.subrange(start, n as int);
    proof {
        if start == 1 {
            assert(d =~= s@.drop_first());
        } else {
            assert(d =~= s@);
        }
    }
    if i == n {
        return None;
    }
    let mut value: usize = 0;
    while i < n
        invariant
            0 <= start <= i <= n,
            n == s@.len(),
            d.len() == n - start,
            d == s@.subrange(start, n as int),
            d == unsigned_part(s@),
            forall|k: int| 0 <= k < i - start ==> is_digit(#[trigger] d[k]),
            value as nat == digits_value(d.subrange(0, i - start)),
        decreases n - i,
    {
        let c = s.get_char(i);
        proof {
            assert(d[i - start] == c);
            assert(d.subrange(0, i - start + 1).drop_last() =~= d.subrange(0, i - start));
        }
        if c < '0' || c > '9' {
            proof {
                assert(!is_digit(d[i - start]));
            }
            return None;
        }
        let digit = (c as u32 - '0' as u32) as usize;
        let next = match value.checked_mul(10) {
            Some(v) => v.checked_add(digit),
            None => None,
        };
        match next {
            Some(v) => {
                value = v;
            },
            None => {
                proof {
                    let p = d.subrange(0, i - start + 1);
                    assert(digit_value(c) == digit as nat);
                    assert(digits_value(p) == value as nat * 10 + digit as nat);
                    assert(digits_value(p) > usize::MAX);
                    if forall|k: int| 0 <= k < d.len() ==> is_digit(#[trigger] d[k]) {
                        lemma_digits_value_grows(d, i - start + 1);
                    }
                }
                return None;
            },
        }
        i = i + 1;
    }
    proof {
        assert(d.subrange(0, n - start) =~= d);
    }
    Some(value)
}

/// `true` or `false`, read as `str::parse::<bool>` reads them.
pub open spec fn flag_value(s: Seq<char>) -> Option<bool> {
    if s == "true"@ {
        Some(true)
    } else if s == "false"@ {
        Some(false)
    } else {
        None
    }
}

/// Whether a text is a given word.
fn word_is(w: &str, lit: &str) -> (r: bool)
    ensures
        r == (w@ == lit@),
{
    w.to_owned() == lit.to_owned()
}

/// Reads `true` or `false`; `None` for anything else.
pub fn parse_flag(s: &str) -> (r: Option<bool>)
    ensures
        r == flag_value(s@),
{
    if word_is(s, "true") {
        Some(true)
    } else if word_is(s, "false") {
        Some(false)
    } else {
        None
    }
}

/// A command typed on the command line.
#[derive(PartialEq, Eq, Clone, Hash, Debug)]
pub enum VimCommand {
    /// Give the task at a view index a new content.
    TaskModify(usize, String),
    /// Delete the task at a view index.
    TaskDelete(usize),
    /// Set the priority of the task at a view index (kept, without effect).
    TaskSetPriority(usize, usize),
    /// Create a project of this name.
    ProjectNew(String),
    /// Open the project of this name.
    ProjectOpen(String),
    /// Save the project.
    ProjectSave,
    /// Save the project, waiting for the save, then quit.
    ProjectSaveAndQuit,
    /// Quit.
    Quit,
    /// Set whether finished tasks are shown.
    ShowFinished(bool),
    /// Set whether only today's tasks are shown.
    ShowToday(bool),
    /// Nothing to do: an empty line, or one that reads as no command.
    NoOp,
}

/// What a command is, with its texts as character sequences.
pub enum CommandView {
    TaskModify(usize, Seq<char>),
    TaskDelete(usize),
    TaskSetPriority(usize, usize),
    ProjectNew(Seq<char>),
    ProjectOpen(Seq<char>),
    ProjectSave,
    ProjectSaveAndQuit,
    Quit,
    ShowFinished(bool),
    ShowToday(bool),
    NoOp,
}

impl View for VimCommand {
    type V = CommandView;

    open spec fn view(&self) -> CommandView {
        match self {
            VimCommand::TaskModify(i, t) => CommandView::TaskModify(*i, t@),
            VimCommand::TaskDelete(i) => CommandView::TaskDelete(*i),
            VimCommand::TaskSetPriority(i, v) => CommandView::TaskSetPriority(*i, *v),
            VimCommand::ProjectNew(n) => CommandView::ProjectNew(n@),
            VimCommand::ProjectOpen(n) => CommandView::ProjectOpen(n@),
            VimCommand::ProjectSave => CommandView::ProjectSave,
            VimCommand::ProjectSaveAndQuit => CommandView::ProjectSaveAndQuit,
            VimCommand::Quit => CommandView::Quit,
            VimCommand::ShowFinished(b) => CommandView::ShowFinished(*b),
            VimCommand::ShowToday(b) => CommandView::ShowToday(*b),
            VimCommand::NoOp => CommandView::NoOp,
        }
    }
}

/// The command word: the first word without its leading prefix character.
pub open spec fn command_word(ws: Seq<Seq<char>>) -> Seq<char> {
    if ws.len() == 0 || ws[0].len() == 0 {
        Seq::<char>::empty()
    } else {
        ws[0].drop_first()
    }
}

/// The command that a line's words give. A required argument that is
/// missing or malformed gives no command; a rename without its text gets
/// the text `Invalid`.
pub open spec fn command_of(ws: Seq<Seq<char>>) -> CommandView {
    let k = command_word(ws);
    if k == "q"@ {
        CommandView::Quit
    } else if k == "w"@ {
        CommandView::ProjectSave
    } else if k == "wq"@ {
        CommandView::ProjectSaveAndQuit
    } else if k == "tmod"@ {
        if ws.len() < 2 {
            CommandView::NoOp
        } else {
            match decimal_value(ws[1]) {
                Some(i) => CommandView::TaskModify(
                    i,
                    match text_tail(words_from(ws, 2)) {
                        Some(t) => t,
                        None => "Invalid"@,
                    },
                ),
                None => CommandView::NoOp,
            }
        }
    } else if k == "tdel"@ {
        if ws.len() < 2 {
            CommandView::NoOp
        } else {
            match decimal_value(ws[1]) {
                Some(i) => CommandView::TaskDelete(i),
                None => CommandView::NoOp,
            }
        }
    } else if k == "tp"@ {
        if ws.len() < 3 {
            CommandView::NoOp
        } else {
            match (decimal_value(ws[1]), decimal_value(ws[2])) {
                (Some(i), Some(v)) => CommandView::TaskSetPriority(i, v),
                _ => CommandView::NoOp,
            }
        }
    } else if k == "popen"@ {
        if ws.len() < 2 {
            CommandView::NoOp
        } else {
            CommandView::ProjectOpen(ws[1])
        }
    } else if k == "pnew"@ {
        if ws.len() < 2 {
            CommandView::NoOp
        } else {
            CommandView::ProjectNew(ws[1])
        }
    } else if k == "showfinished"@ {
        if ws.len() < 2 {
            CommandView::NoOp
        } else {
            match flag_value(ws[1]) {
                Some(b) => CommandView::ShowFinished(b),
                None => CommandView::NoOp,
            }
        }
    } else if k == "showtoday"@ {
        if ws.len() < 2 {
            CommandView::NoOp
        } else {
            match flag_value(ws[1]) {
                Some(b) => CommandView::ShowToday(b),
                None => CommandView::NoOp,
            }
        }
    } else {
        CommandView::NoOp
    }
}

impl VimCommand {
    /// The command that a line's words give (see `command_of`).
    pub fn from_tokens(tokens: &Vec<String>) -> (r: VimCommand)
        ensures
            r@ == command_of(texts(tokens@)),
    {
        let ghost ws = texts(tokens@);
        proof {
            assert(ws.len() == tokens@.len());
            if tokens@.len() > 0 {
                assert(ws[0] == tokens@[0]@);
            }
            if tokens@.len() > 1 {
                assert(ws[1] == tokens@[1]@);
            }
            if tokens@.len() > 2 {
                assert(ws[2] == tokens@[2]@);
            }
        }
        let n = tokens.len();
        let first: &str = if n == 0 {
            ""
        } else {
            tokens[0].as_str()
        };
        let first_len = first.unicode_len();
        let k: &str = if first_len == 0 {
            ""
        } else {
            first.substring_char(1, first_len)
        };
        proof {
            reveal_strlit("");
            if first_len > 0 {
                assert(k@ =~= ws[0].drop_first());
            }
            assert(k@ == command_word(ws));
        }
        if word_is(k, "q") {
            VimCommand::Quit
        } else if word_is(k, "w") {
            VimCommand::ProjectSave
        } else if word_is(k, "wq") {
            VimCommand::ProjectSaveAndQuit
        } else if word_is(k, "tmod") {
            if n < 2 {
                VimCommand::NoOp
            } else {
                match parse_index(tokens[1].as_str()) {
                    Some(i) => {
                        let content = match parse_text_parts(tokens, 2) {
                            Some(t) => t,
                            None => "Invalid".to_owned(),
                        };
                        VimCommand::TaskModify(i, content)
                    },
                    None => VimCommand::NoOp,
                }
            }
        } else if word_is(k, "tdel") {
            if n < 2 {
                VimCommand::NoOp
            } else {
                match parse_index(tokens[1].as_str()) {
                    Some(i) => VimCommand::TaskDelete(i),
                    None => VimCommand::NoOp,
                }
            }
        } else if word_is(k, "tp") {
            if n < 3 {
                VimCommand::NoOp
            } else {
                match (parse_index(tokens[1].as_str()), parse_index(tokens[2].as_str())) {
                    (Some(i), Some(v)) => VimCommand::TaskSetPriority(i, v),
                    _ => VimCommand::NoOp,
                }
            }
        } else if word_is(k, "popen") {
            if n < 2 {
                VimCommand::NoOp
            } else {
                VimCommand::ProjectOpen(tokens[1].clone())
            }
        } else if word_is(k, "pnew") {
            if n < 2 {
                VimCommand::NoOp
            } else {
                VimCommand::ProjectNew(tokens[1].clone())
            }
        } else if word_is(k, "showfinished") {
            if n < 2 {
                VimCommand::NoOp
            } else {
                match parse_flag(tokens[1].as_str()) {
                    Some(b) => VimCommand::ShowFinished(b),
                    None => VimCommand::NoOp,
                }
            }
        } else if word_is(k, "showtoday") {
            if n < 2 {
                VimCommand::NoOp
            } else {
                match parse_flag(tokens[1].as_str()) {
                    Some(b) => VimCommand::ShowToday(b),
                    None => VimCommand::NoOp,
                }
            }
        } else {
            VimCommand::NoOp
        }
    }

    /// Parses a command line: its words are split on whitespace, the first
    /// one names the command after its prefix character, and the rest are
    /// its arguments.
    pub fn from_command(cmd: String) -> (r: VimCommand)
        ensures
            r@ == command_of(whitespace_words(cmd@)),
    {
        let tokens = split_words(cmd.as_str());
        Self::from_tokens(&tokens)
    }
}

} // verus!
