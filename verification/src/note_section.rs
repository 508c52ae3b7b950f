//! The note section of the detail panel: the note being written, or the
//! newest note's first lines and how many more notes there are.
use vstd::prelude::*;
use crate::number::decimal_digits;
use crate::text::{append, append_str, chars_of, lines, lines_exec, string_from_chars};

verus! {

/// One line of the note section.
#[derive(Clone, Debug, PartialEq, Eq)]
pub enum NoteLine {
    /// A line of note text.
    Text(String),
    /// `… 외 n개 노트`: this many notes besides the one shown.
    MoreNotes(usize),
    /// The document has no notes.
    NoNotes,
    /// An empty line.
    Blank,
    /// The key hint at the bottom.
    Hint(String),
}

/// The spec form of a note line.
pub ghost enum NoteLineView {
    Text(Seq<char>),
    MoreNotes(nat),
    NoNotes,
    Blank,
    Hint(Seq<char>),
}

pub open spec fn note_line_view(l: NoteLine) -> NoteLineView {
    match l {
        NoteLine::Text(s) => NoteLineView::Text(s@),
        NoteLine::MoreNotes(n) => NoteLineView::MoreNotes(n as nat),
        NoteLine::NoNotes => NoteLineView::NoNotes,
        NoteLine::Blank => NoteLineView::Blank,
        NoteLine::Hint(s) => NoteLineView::Hint(s@),
    }
}

pub open spec fn note_lines_view(ls: Seq<NoteLine>) -> Seq<NoteLineView> {
    Seq::new(ls.len(), |i: int| note_line_view(ls[i]))
}

/// The block title of the section.
pub open spec fn note_title(editing: bool, count: nat) -> Seq<char> {
    if editing {
        "✎ 노트 (편집 중)"@
    } else if count == 0 {
        " 📝 노트 (없음) "@
    } else if count > 1 {
        " 📝 노트 ("@ + decimal_digits(count) + "개) "@
    } else {
        " 📝 노트 "@
    }
}

/// The lines while a note is written: each line of the input (a single
/// space when there is none), a blank line and the editing keys.
pub open spec fn editing_lines(input: Seq<char>) -> Seq<NoteLineView> {
    let ls = lines(input);
    let body = if ls.len() == 0 {
        seq![NoteLineView::Text(" "@)]
    } else {
        Seq::new(ls.len(), |i: int| NoteLineView::Text(ls[i]))
    };
    body + seq![
        NoteLineView::Blank,
        NoteLineView::Hint(" [Enter] 줄바꿈  [Esc] 저장  [Ctrl+D] 삭제"@),
    ]
}

/// The lines otherwise: the newest note's first four lines and the number
/// of other notes, or that there are none; then a blank line and, when the
/// panel has the focus, the keys that write a note.
pub open spec fn viewing_lines(notes: Seq<Seq<char>>, focused: bool) -> Seq<NoteLineView> {
    let body = if notes.len() == 0 {
        seq![NoteLineView::NoNotes]
    } else {
        let ls = lines(notes[0]);
        let n = if ls.len() < 4 {
            ls.len() as int
        } else {
            4
        };
        let shown = Seq::new(n as nat, |i: int| NoteLineView::Text(ls[i]));
        if notes.len() > 1 {
            shown.push(NoteLineView::MoreNotes((notes.len() - 1) as nat))
        } else {
            shown
        }
    };
    body + seq![
        NoteLineView::Blank,
        NoteLineView::Hint(
            if focused {
                "  [n] 노트 작성  [:note] $EDITOR로 작성"@
            } else {
                ""@
            },
        ),
    ]
}

fn push_note_line(out: &mut Vec<NoteLine>, l: NoteLine)
    ensures
        note_lines_view(final(out)@) == note_lines_view(old(out)@).push(note_line_view(l)),
{
    out.push(l);
    assert(note_lines_view(out@) =~= note_lines_view(old(out)@).push(note_line_view(l)));
}

/// Pushes the first `n` of `ls` as text lines.
fn push_text_lines(out: &mut Vec<NoteLine>, ls: &Vec<Vec<char>>, n: usize)
    requires
        n <= ls.len(),
    ensures
        note_lines_view(final(out)@) == note_lines_view(old(out)@) + Seq::new(
            n as nat,
            |i: int| NoteLineView::Text(ls.deep_view()[i]),
        ),
{
    let ghost head = note_lines_view(out@);
    let ghost items = Seq::new(n as nat, |i: int| NoteLineView::Text(ls.deep_view()[i]));
    let mut i: usize = 0;
    while i < n
        invariant
            i <= n,
            n <= ls.len(),
            items == Seq::new(n as nat, |k: int| NoteLineView::Text(ls.deep_view()[k])),
            note_lines_view(out@) == head + items.take(i as int),
        decreases n - i,
    {
        assert(ls.deep_view()[i as int] == ls@[i as int]@);
        push_note_line(out, NoteLine::Text(string_from_chars(&ls[i])));
        assert(items.take(i + 1) =~= items.take(i as int).push(items[i as int]));
        i += 1;
    }
    assert(items.take(n as int) =~= items);
}

/// The title and lines of the note section. `notes` holds the contents of
/// the document's notes, newest first; `input` is the note being written
/// when `editing` holds.
pub fn note_section(editing: bool, input: &str, notes: &Vec<String>, focused: bool) -> (r: (
    String,
    Vec<NoteLine>,
))
    ensures
        r.0@ == note_title(editing, notes.len() as nat),
        note_lines_view(r.1@) == if editing {
            editing_lines(input@)
        } else {
            viewing_lines(notes.deep_view(), focused)
        },
{
    let count = notes.len();
    let title: String = if editing {
        "✎ 노트 (편집 중)".to_string()
    } else if count == 0 {
        " 📝 노트 (없음) ".to_string()
    } else if count > 1 {
        let mut t = chars_of(" 📝 노트 (");
        let digits = crate::number::digits_of_u64(count as u64);
        append(&mut t, &digits);
        append_str(&mut t, "개) ");
        string_from_chars(&t)
    } else {
        " 📝 노트 ".to_string()
    };
    let mut out: Vec<NoteLine> = Vec::new();
    if editing {
        let ls = lines_exec(&chars_of(input));
        if ls.len() == 0 {
            push_note_line(&mut out, NoteLine::Text(" ".to_string()));
        } else {
            push_text_lines(&mut out, &ls, ls.len());
        }
        push_note_line(&mut out, NoteLine::Blank);
        push_note_line(&mut out, NoteLine::Hint(" [Enter] 줄바꿈  [Esc] 저장  [Ctrl+D] 삭제".to_string()));
        assert(note_lines_view(out@) =~= editing_lines(input@));
    } else {
        if count == 0 {
            push_note_line(&mut out, NoteLine::NoNotes);
        } else {
            let ls = lines_exec(&chars_of(notes[0].as_str()));
            assert(notes.deep_view()[0] == notes@[0]@);
            let n: usize = if ls.len() < 4 {
                ls.len()
            } else {
                4
            };
            push_text_lines(&mut out, &ls, n);
            if count > 1 {
                push_note_line(&mut out, NoteLine::MoreNotes(count - 1));
            }
        }
        push_note_line(&mut out, NoteLine::Blank);
        if focused {
            push_note_line(&mut out, NoteLine::Hint("  [n] 노트 작성  [:note] $EDITOR로 작성".to_string()));
        } else {
            push_note_line(&mut out, NoteLine::Hint("".to_string()));
        }
        assert(note_lines_view(out@) =~= viewing_lines(notes.deep_view(), focused));
    }
    (title, out)
}

} // verus!
