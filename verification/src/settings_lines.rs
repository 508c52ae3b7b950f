//! The lines of the settings panel's item list: the main tab's sections
//! (appearance, tools, reset) and the theme-color tab's colors.
use vstd::prelude::*;
use crate::settings::{
    get_theme_color, item_value_spec, item_value_str, same_color, theme_color_spec,
    SettingsModel, MAIN_RESET,
};
use crate::settings_keys::TAB_THEME;
use crate::text::{append, append_str, chars_of, string_from_chars};
use crate::theme::{color_rgb, ThemeConfig};

verus! {

/// One line of the item list.
#[derive(Clone, Debug, PartialEq, Eq)]
pub enum SettingsLine {
    /// A section heading.
    Heading(String),
    /// A horizontal rule.
    Divider,
    /// An empty line.
    Blank,
    /// A dimmed explanation.
    Note(String),
    /// An item: whether the cursor is on it, its label padded to fourteen
    /// characters, and its value when it shows one.
    Item(bool, String, Option<String>),
    /// The reset item, drawn in the error color.
    Reset(bool, String),
}

/// The spec form of a line.
pub ghost enum SettingsLineView {
    Heading(Seq<char>),
    Divider,
    Blank,
    Note(Seq<char>),
    Item(bool, Seq<char>, Option<Seq<char>>),
    Reset(bool, Seq<char>),
}

pub open spec fn line_view(l: SettingsLine) -> SettingsLineView {
    match l {
        SettingsLine::Heading(s) => SettingsLineView::Heading(s@),
        SettingsLine::Divider => SettingsLineView::Divider,
        SettingsLine::Blank => SettingsLineView::Blank,
        SettingsLine::Note(s) => SettingsLineView::Note(s@),
        SettingsLine::Item(sel, l, v) => SettingsLineView::Item(
            sel,
            l@,
            match v {
                Some(x) => Some(x@),
                None => None,
            },
        ),
        SettingsLine::Reset(sel, l) => SettingsLineView::Reset(sel, l@),
    }
}

pub open spec fn lines_view(ls: Seq<SettingsLine>) -> Seq<SettingsLineView> {
    Seq::new(ls.len(), |i: int| line_view(ls[i]))
}

/// The labels of the main tab's items.
pub open spec fn main_label(i: int) -> Seq<char> {
    if i == 0 {
        "테마 이름"@
    } else if i == 1 {
        "배경 강제"@
    } else if i == 2 {
        "사이드바 너비"@
    } else if i == 3 {
        "글리프 세트"@
    } else if i == 4 {
        "PDF 뷰어"@
    } else if i == 5 {
        "▶ 위젯 패널 열기"@
    } else if i == 6 {
        "▶ DB 불러오기"@
    } else {
        "기본값으로 초기화"@
    }
}

fn main_label_str(i: usize) -> (r: &'static str)
    ensures
        r@ == main_label(i as int),
{
    if i == 0 {
        "테마 이름"
    } else if i == 1 {
        "배경 강제"
    } else if i == 2 {
        "사이드바 너비"
    } else if i == 3 {
        "글리프 세트"
    } else if i == 4 {
        "PDF 뷰어"
    } else if i == 5 {
        "▶ 위젯 패널 열기"
    } else if i == 6 {
        "▶ DB 불러오기"
    } else {
        "기본값으로 초기화"
    }
}

/// The labels of the theme-color tab's items.
pub open spec fn color_label(i: int) -> Seq<char> {
    if i == 0 {
        "배경색"@
    } else if i == 1 {
        "표면색"@
    } else if i == 2 {
        "전경색"@
    } else if i == 3 {
        "주 강조색"@
    } else if i == 4 {
        "보조 강조색"@
    } else if i == 5 {
        "흐림색"@
    } else if i == 6 {
        "구분선색"@
    } else if i == 7 {
        "선택색"@
    } else if i == 8 {
        "포커스 배경"@
    } else if i == 9 {
        "포커스 전경"@
    } else if i == 10 {
        "제목색"@
    } else if i == 11 {
        "메타색"@
    } else if i == 12 {
        "키색"@
    } else if i == 13 {
        "태그색"@
    } else if i == 14 {
        "UDC색"@
    } else if i == 15 {
        "오류색"@
    } else if i == 16 {
        "경고색"@
    } else if i == 17 {
        "코드색"@
    } else if i == 18 {
        "성공색"@
    } else {
        "── 기본값으로 초기화 ──"@
    }
}

fn color_label_str(i: usize) -> (r: &'static str)
    ensures
        r@ == color_label(i as int),
{
    if i == 0 {
        "배경색"
    } else if i == 1 {
        "표면색"
    } else if i == 2 {
        "전경색"
    } else if i == 3 {
        "주 강조색"
    } else if i == 4 {
        "보조 강조색"
    } else if i == 5 {
        "흐림색"
    } else if i == 6 {
        "구분선색"
    } else if i == 7 {
        "선택색"
    } else if i == 8 {
        "포커스 배경"
    } else if i == 9 {
        "포커스 전경"
    } else if i == 10 {
        "제목색"
    } else if i == 11 {
        "메타색"
    } else if i == 12 {
        "키색"
    } else if i == 13 {
        "태그색"
    } else if i == 14 {
        "UDC색"
    } else if i == 15 {
        "오류색"
    } else if i == 16 {
        "경고색"
    } else if i == 17 {
        "코드색"
    } else if i == 18 {
        "성공색"
    } else {
        "── 기본값으로 초기화 ──"
    }
}

/// `format!("{:<14}", s)`: padded with spaces to fourteen characters.
pub open spec fn pad14(s: Seq<char>) -> Seq<char> {
    if s.len() >= 14 {
        s
    } else {
        s + Seq::new((14 - s.len()) as nat, |i: int| ' ')
    }
}

fn pad14_exec(s: &str) -> (r: String)
    ensures
        r@ == pad14(s@),
{
    let mut v = chars_of(s);
    let ghost n = v@.len();
    while v.len() < 14
        invariant
            v@.len() <= if n >= 14 {
                n
            } else {
                14
            },
            v@.len() >= n,
            v@.subrange(0, n as int) == s@,
            forall|k: int| n <= k < v@.len() ==> v@[k] == ' ',
        decreases 14 - v.len(),
    {
        v.push(' ');
    }
    assert(v@ =~= pad14(s@));
    string_from_chars(&v)
}

/// An upper-case hex digit.
pub open spec fn hex_upper(d: int) -> char {
    if d < 10 {
        (('0' as u32) + d) as char
    } else {
        (('A' as u32) + d - 10) as char
    }
}

/// `format!("{:02X}", b)`.
pub open spec fn hex2(b: u8) -> Seq<char> {
    seq![hex_upper((b / 16) as int), hex_upper((b % 16) as int)]
}

fn hex_upper_exec(d: u8) -> (c: char)
    requires
        d < 16,
    ensures
        c == hex_upper(d as int),
{
    if d < 10 {
        ((('0' as u8) + d) as char)
    } else {
        ((('A' as u8) + d - 10) as char)
    }
}

/// The value shown for theme-color item `i`: the input with a block cursor
/// while it is edited, else the configured color as `#RRGGBB`, `(잘못됨)` for
/// a color that is not six hex digits, or `기본값` when none is configured.
pub open spec fn color_value(t: ThemeConfig, i: usize, editing: bool, cursor: usize, input: Seq<char>) -> Seq<char> {
    if editing && i == cursor {
        input + "█"@
    } else {
        match theme_color_spec(t, i) {
            Some(cc) => match color_rgb(cc.hex@) {
                Some((r, g, b)) => "#"@ + hex2(r) + hex2(g) + hex2(b),
                None => "(잘못됨)"@,
            },
            None => "기본값"@,
        }
    }
}

/// The main tab's lines.
pub open spec fn main_lines(m: SettingsModel) -> Seq<SettingsLineView> {
    let c = crate::settings::cursor_of(m);
    let appearance = Seq::new(
        5,
        |i: int|
            SettingsLineView::Item(
                i == c,
                pad14(main_label(i)),
                Some(item_value_spec(m, i as usize)),
            ),
    );
    let tools = Seq::new(
        2,
        |i: int| SettingsLineView::Item(i + 5 == c, pad14(main_label(i + 5)), None),
    );
    seq![SettingsLineView::Heading(" 외관 · Appearance "@), SettingsLineView::Divider]
        + appearance + seq![
        SettingsLineView::Blank,
        SettingsLineView::Heading(" 도구 · Tools "@),
        SettingsLineView::Divider,
    ] + tools + seq![
        SettingsLineView::Blank,
        SettingsLineView::Divider,
        SettingsLineView::Reset(c == MAIN_RESET, pad14(main_label(7))),
    ]
}

/// The theme-color tab's lines: a note, then one line per color and the
/// reset item.
pub open spec fn color_lines(m: SettingsModel, t: ThemeConfig) -> Seq<SettingsLineView> {
    let (cursor, editing, input) = match m.panel {
        Some(p) => (p.theme_color_cursor, p.editing, p.edit_input@),
        None => (0usize, false, Seq::empty()),
    };
    seq![SettingsLineView::Note(" 각 항목에서 Enter → 컬러 피커 또는 #RRGGBB 직접 입력 "@)] + Seq::new(
        20,
        |i: int|
            if i == 19 {
                SettingsLineView::Reset(i == cursor, pad14(color_label(i)))
            } else {
                SettingsLineView::Item(
                    i == cursor,
                    pad14(color_label(i)),
                    Some(color_value(t, i as usize, editing, cursor, input)),
                )
            },
    )
}

/// The lines of the tab shown.
pub open spec fn item_lines_spec(m: SettingsModel, t: ThemeConfig) -> Seq<SettingsLineView> {
    let tab = match m.panel {
        Some(p) => p.active_tab,
        None => 0,
    };
    if tab == TAB_THEME {
        color_lines(m, t)
    } else {
        main_lines(m)
    }
}

fn push_line(out: &mut Vec<SettingsLine>, l: SettingsLine)
    ensures
        lines_view(final(out)@) == lines_view(old(out)@).push(line_view(l)),
{
    out.push(l);
    assert(lines_view(out@) =~= lines_view(old(out)@).push(line_view(l)));
}

fn color_value_exec(t: &ThemeConfig, i: usize, editing: bool, cursor: usize, input: &str) -> (r: String)
    ensures
        r@ == color_value(*t, i, editing, cursor, input@),
{
    if editing && i == cursor {
        let mut v = chars_of(input);
        append_str(&mut v, "█");
        return string_from_chars(&v);
    }
    match get_theme_color(t, i) {
        Some(cc) => {
            assert(same_color(Some(cc), theme_color_spec(*t, i)));
            match cc.to_rgb() {
                Some((r, g, b)) => {
                    let mut v = chars_of("#");
                    let digits = vec![
                        hex_upper_exec(r / 16),
                        hex_upper_exec(r % 16),
                        hex_upper_exec(g / 16),
                        hex_upper_exec(g % 16),
                        hex_upper_exec(b / 16),
                        hex_upper_exec(b % 16),
                    ];
                    append(&mut v, &digits);
                    assert(v@ =~= "#"@ + hex2(r) + hex2(g) + hex2(b));
                    string_from_chars(&v)
                },
                None => "(잘못됨)".to_string(),
            }
        },
        None => "기본값".to_string(),
    }
}

/// The lines of the settings panel's item list for the tab shown.
pub fn settings_item_lines(m: &SettingsModel, t: &ThemeConfig) -> (r: Vec<SettingsLine>)
    ensures
        lines_view(r@) == item_lines_spec(*m, *t),
{
    let (tab, cursor, tc_cursor, editing) = match &m.panel {
        Some(p) => (p.active_tab, p.cursor, p.theme_color_cursor, p.editing),
        None => (0, 0, 0, false),
    };
    let mut out: Vec<SettingsLine> = Vec::new();
    if tab == TAB_THEME {
        let input: &str = match &m.panel {
            Some(p) => p.edit_input.as_str(),
            None => "",
        };
        proof {
            reveal_strlit("");
        }
        push_line(&mut out, SettingsLine::Note(" 각 항목에서 Enter → 컬러 피커 또는 #RRGGBB 직접 입력 ".to_string()));
        let ghost head = lines_view(out@);
        let ghost want = color_lines(*m, *t);
        let mut i: usize = 0;
        while i < 20
            invariant
                i <= 20,
                head.len() == 1,
                want == color_lines(*m, *t),
                lines_view(out@) == want.take(i as int + 1),
                tc_cursor == (match m.panel {
                    Some(p) => p.theme_color_cursor,
                    None => 0usize,
                }),
                editing == (match m.panel {
                    Some(p) => p.editing,
                    None => false,
                }),
                input@ == (match m.panel {
                    Some(p) => p.edit_input@,
                    None => Seq::<char>::empty(),
                }),
                want[0] == SettingsLineView::Note(" 각 항목에서 Enter → 컬러 피커 또는 #RRGGBB 직접 입력 "@),
            decreases 20 - i,
        {
            let label = pad14_exec(color_label_str(i));
            if i == 19 {
                push_line(&mut out, SettingsLine::Reset(i == tc_cursor, label));
            } else {
                let v = color_value_exec(t, i, editing, tc_cursor, input);
                push_line(&mut out, SettingsLine::Item(i == tc_cursor, label, Some(v)));
            }
            assert(want.take(i as int + 2) =~= want.take(i as int + 1).push(want[i as int + 1]));
            i += 1;
        }
        assert(want.take(21) =~= want);
    } else {
        push_line(&mut out, SettingsLine::Heading(" 외관 · Appearance ".to_string()));
        push_line(&mut out, SettingsLine::Divider);
        let ghost want = main_lines(*m);
        let mut i: usize = 0;
        while i < 5
            invariant
                i <= 5,
                want == main_lines(*m),
                lines_view(out@) == want.take(i as int + 2),
                cursor == crate::settings::cursor_of(*m),
            decreases 5 - i,
        {
            let label = pad14_exec(main_label_str(i));
            let v = item_value_str(m, i);
            push_line(&mut out, SettingsLine::Item(i == cursor, label, Some(v)));
            assert(want.take(i as int + 3) =~= want.take(i as int + 2).push(want[i as int + 2]));
            i += 1;
        }
        push_line(&mut out, SettingsLine::Blank);
        push_line(&mut out, SettingsLine::Heading(" 도구 · Tools ".to_string()));
        push_line(&mut out, SettingsLine::Divider);
        push_line(&mut out, SettingsLine::Item(cursor == 5, pad14_exec(main_label_str(5)), None));
        push_line(&mut out, SettingsLine::Item(cursor == 6, pad14_exec(main_label_str(6)), None));
        push_line(&mut out, SettingsLine::Blank);
        push_line(&mut out, SettingsLine::Divider);
        push_line(&mut out, SettingsLine::Reset(cursor == MAIN_RESET, pad14_exec(main_label_str(7))));
        assert(lines_view(out@) =~= want);
    }
    out
}

} // verus!
