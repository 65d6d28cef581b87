//! What the tree view shows, as plain values: the glyphs of each mode, the
//! footer's key hints, the terminal row of each tree row, and the parts of
//! every tree line. Colors and terminal drawing are the caller's.
use vstd::prelude::*;

use crate::domain::rows::{Focus, FocusView, TreeRow, TreeRowKind};
use crate::domain::state::WindowAlert;
use crate::input::{InputBuffer, InputView};
use crate::controls::{alert_rows, is_alerted_row};
use crate::model::{
    first_session_at, first_window_at, focused_pos, jump_label, jump_labels, target_of, AppState, Mode, Session,
    Window,
};
use crate::domain::state::{target_view, ClientName};
use crate::text::{chars_of, decimal, push_char, push_decimal, push_str, string_from_chars, to_owned_string};
use vstd::slice::slice_subrange;

verus! {

/// The terminal row of the first tree row (below the header).
pub const TREE_START_ROW: u16 = 1;

/// The tree row shown on terminal row `row`, counted from the first tree row.
pub open spec fn tree_index_spec(row: u16) -> Option<usize> {
    if row >= TREE_START_ROW {
        Some((row - TREE_START_ROW) as usize)
    } else {
        None
    }
}

/// The tree row shown on terminal row `row`; none for the header.
pub fn tree_index_for_terminal_row(row: u16) -> (r: Option<usize>)
    ensures
        r == tree_index_spec(row),
{
    if row >= TREE_START_ROW {
        Some((row - TREE_START_ROW) as usize)
    } else {
        None
    }
}

/// Which glyphs the view draws with.
#[derive(Debug, Clone, Copy, PartialEq, Eq, Default, Structural)]
pub enum GlyphMode {
    #[default]
    Nerd,
    Ascii,
}

/// The glyphs of one glyph mode.
#[derive(Debug, Clone, Copy, PartialEq, Eq)]
pub struct Glyphs {
    pub app_icon: &'static str,
    pub separator: &'static str,
    pub tree_branch: &'static str,
    pub tree_last: &'static str,
    pub focus: &'static str,
    pub active: &'static str,
    pub create: &'static str,
    pub alert: &'static str,
    pub rename: &'static str,
    pub inline_prefix: &'static str,
}

impl Glyphs {
    /// The glyphs of `mode`.
    pub open spec fn from_mode_spec(mode: GlyphMode) -> Glyphs {
        match mode {
            GlyphMode::Nerd => Glyphs {
                app_icon: "\u{ebc8}",
                separator: "\u{e0b1}",
                tree_branch: "├─",
                tree_last: "└─",
                focus: "▶",
                active: "●",
                create: "\u{f0415}",
                alert: "\u{f009e}",
                rename: "\u{f0455}",
                inline_prefix: "\u{f0455}",
            },
            GlyphMode::Ascii => Glyphs {
                app_icon: "tmux",
                separator: "|",
                tree_branch: "|--",
                tree_last: "+--",
                focus: ">",
                active: "*",
                create: "[+]",
                alert: "!",
                rename: "[...]",
                inline_prefix: "[...]",
            },
        }
    }

    /// The glyphs of `mode`: Nerd Font icons, or plain ASCII.
    pub fn from_mode(mode: GlyphMode) -> (g: Self)
        ensures
            g == Self::from_mode_spec(mode),
            mode == GlyphMode::Ascii ==> {
                &&& g.app_icon@ == "tmux"@
                &&& g.separator@ == "|"@
                &&& g.tree_branch@ == "|--"@
                &&& g.tree_last@ == "+--"@
                &&& g.focus@ == ">"@
                &&& g.active@ == "*"@
                &&& g.create@ == "[+]"@
                &&& g.alert@ == "!"@
                &&& g.rename@ == "[...]"@
                &&& g.inline_prefix@ == "[...]"@
            },
            mode == GlyphMode::Nerd ==> {
                &&& g.app_icon@ == "\u{ebc8}"@
                &&& g.separator@ == "\u{e0b1}"@
                &&& g.tree_branch@ == "├─"@
                &&& g.tree_last@ == "└─"@
                &&& g.focus@ == "▶"@
                &&& g.active@ == "●"@
                &&& g.create@ == "\u{f0415}"@
                &&& g.alert@ == "\u{f009e}"@
                &&& g.rename@ == "\u{f0455}"@
                &&& g.inline_prefix@ == "\u{f0455}"@
            },
    {
        match mode {
            GlyphMode::Nerd => Glyphs {
                app_icon: "\u{ebc8}",
                separator: "\u{e0b1}",
                tree_branch: "├─",
                tree_last: "└─",
                focus: "▶",
                active: "●",
                create: "\u{f0415}",
                alert: "\u{f009e}",
                rename: "\u{f0455}",
                inline_prefix: "\u{f0455}",
            },
            GlyphMode::Ascii => Glyphs {
                app_icon: "tmux",
                separator: "|",
                tree_branch: "|--",
                tree_last: "+--",
                focus: ">",
                active: "*",
                create: "[+]",
                alert: "!",
                rename: "[...]",
                inline_prefix: "[...]",
            },
        }
    }
}

/// How the view renders: its glyphs and the frame of the activity animation.
#[derive(Debug, Clone, Copy, PartialEq, Eq, Default)]
pub struct RenderOptions {
    pub glyph_mode: GlyphMode,
    pub activity_animation_frame: usize,
}

impl RenderOptions {
    /// ASCII glyphs, first animation frame.
    pub fn ascii() -> (o: Self)
        ensures
            o.glyph_mode == GlyphMode::Ascii,
            o.activity_animation_frame == 0,
    {
        RenderOptions { glyph_mode: GlyphMode::Ascii, activity_animation_frame: 0 }
    }

    /// ASCII glyphs at the given animation frame.
    pub fn ascii_with_animation_frame(activity_animation_frame: usize) -> (o: Self)
        ensures
            o.glyph_mode == GlyphMode::Ascii,
            o.activity_animation_frame == activity_animation_frame,
    {
        RenderOptions { glyph_mode: GlyphMode::Ascii, activity_animation_frame }
    }
}


/// How a tree line is styled as a whole.
#[derive(Debug, Clone, Copy, PartialEq, Eq, Structural)]
pub enum RowStyle {
    Base,
    Disabled,
    Focused,
    InlineEdit,
    InlineEditFocused,
}

/// What a piece of a tree line shows, which decides its color: the row's own
/// text (plain, muted or warning-colored in the row's style), a marker, a
/// badge, or unstyled text.
#[derive(Debug, Clone, Copy, PartialEq, Eq, Structural)]
pub enum SpanRole {
    Plain,
    RowText,
    RowMuted,
    RowWarning,
    MarkerFocus,
    MarkerIdle,
    MarkerCreate,
    BadgeActive,
    BadgeAlert,
    JumpLabel,
}

/// A piece of a tree line.
#[derive(Debug, Clone, PartialEq, Eq)]
pub struct TreeSpan {
    pub text: String,
    pub role: SpanRole,
}

/// One line of the tree.
#[derive(Debug, Clone, PartialEq, Eq)]
pub struct TreeLine {
    pub style: RowStyle,
    pub spans: Vec<TreeSpan>,
}

/// The lines of the tree, one per row.
#[derive(Debug, Clone, PartialEq, Eq, Default)]
pub struct TreeView {
    pub lines: Vec<TreeLine>,
}

/// A span as plain values.
pub open spec fn span_view(s: TreeSpan) -> (Seq<char>, SpanRole) {
    (s.text@, s.role)
}

pub open spec fn spans_view(v: Seq<TreeSpan>) -> Seq<(Seq<char>, SpanRole)> {
    v.map_values(|s: TreeSpan| span_view(s))
}

/// The row that the edit mode edits in place, the field, and whether it
/// names something new.
pub open spec fn inline_edit_of(m: Mode) -> Option<(FocusView, InputView, bool)> {
    match m {
        Mode::RenameSession { id, input, .. } => Some((FocusView::Session(id@), input@, false)),
        Mode::RenameWindow { session_id, id, input, .. } => Some((FocusView::Window(session_id@, id@), input@, false)),
        Mode::CreateSessionName { input } => Some((FocusView::CreateSession, input@, true)),
        Mode::CreateWindowName { session_id, input } => Some((FocusView::CreateWindow(session_id@), input@, true)),
        Mode::Normal => None,
        Mode::Help => None,
    }
}

/// The noun of a row kind.
pub open spec fn noun_of(k: TreeRowKind) -> Seq<char> {
    match k {
        TreeRowKind::Session { .. } => "session"@,
        TreeRowKind::CreateSession => "session"@,
        TreeRowKind::Window { .. } => "window"@,
        TreeRowKind::CreateWindow { .. } => "window"@,
    }
}

/// The label of a row edited in place: the edit prompt, and the field with a
/// `|` at the cursor.
pub open spec fn inline_label_spec(k: TreeRowKind, input: InputView, create: bool, g: Glyphs) -> Seq<(Seq<char>, SpanRole)> {
    let action = if create { "new "@ + noun_of(k) + " name"@ } else { "rename "@ + noun_of(k) };
    seq![
        (g.inline_prefix@, SpanRole::MarkerCreate),
        (" "@ + action + ": "@, SpanRole::RowText),
        (input.text.subrange(0, input.cursor as int) + "|"@ + input.text.subrange(input.cursor as int, input.text.len() as int), SpanRole::RowWarning),
    ]
}

/// The label of a row: the session name (and how many clients it has
/// attached), the window index and name, or the create prompts.
pub open spec fn label_spec(k: TreeRowKind, g: Glyphs) -> Seq<(Seq<char>, SpanRole)> {
    match k {
        TreeRowKind::CreateSession => seq![(g.create@, SpanRole::MarkerCreate), (" new session"@, SpanRole::RowMuted)],
        TreeRowKind::Session { name, attached_count, .. } => if attached_count > 0 {
            seq![(name@, SpanRole::RowText), (" ("@ + decimal(attached_count as nat) + " attached)"@, SpanRole::RowMuted)]
        } else {
            seq![(name@, SpanRole::RowText)]
        },
        TreeRowKind::Window { index, name, .. } => seq![(decimal(index as nat) + " "@ + name@, SpanRole::RowText)],
        TreeRowKind::CreateWindow { .. } => seq![(g.create@, SpanRole::MarkerCreate), (" new window"@, SpanRole::RowMuted)],
    }
}

/// The branch drawn before window and new-window rows.
pub open spec fn branch_spec(k: TreeRowKind, g: Glyphs) -> Seq<(Seq<char>, SpanRole)> {
    match k {
        TreeRowKind::Window { .. } => seq![(g.tree_branch@, SpanRole::MarkerIdle), (" "@, SpanRole::Plain)],
        TreeRowKind::CreateWindow { .. } => seq![(g.tree_last@, SpanRole::MarkerIdle), (" "@, SpanRole::Plain)],
        _ => Seq::empty(),
    }
}

/// The digits that number the first ten alerted rows: `1`-`9`, then `0`.
pub open spec fn alert_digits() -> Seq<char> {
    seq!['1', '2', '3', '4', '5', '6', '7', '8', '9', '0']
}

/// The alert badge of the alerted row that comes `k`-th (from 0) among the
/// alerted rows: the first ten carry the digit that jumps to them.
pub open spec fn alert_badge_text(g: Glyphs, k: int) -> Seq<char> {
    if 0 <= k < 10 {
        " ["@ + seq![alert_digits()[k]] + "] "@ + g.alert@ + " alert"@
    } else {
        " "@ + g.alert@ + " alert"@
    }
}

/// Text without its first character (empty text stays empty).
pub open spec fn after_first(t: Seq<char>) -> Seq<char> {
    if t.len() > 0 {
        t.subrange(1, t.len() as int)
    } else {
        t
    }
}

/// A label with jump label `c` drawn over its first character.
pub open spec fn jump_overlay(label: Seq<(Seq<char>, SpanRole)>, c: char) -> Seq<(Seq<char>, SpanRole)> {
    if label.len() > 0 {
        seq![(seq![c], SpanRole::JumpLabel), (after_first(label[0].0), label[0].1)] + label.subrange(
            1,
            label.len() as int,
        )
    } else {
        seq![(seq![c], SpanRole::JumpLabel)]
    }
}

/// The badges of a row that has `k` alerted rows before it: the visible
/// window, and an alert.
pub open spec fn badges_spec(r: TreeRow, g: Glyphs, k: int) -> Seq<(Seq<char>, SpanRole)> {
    let active: Seq<(Seq<char>, SpanRole)> = match r.kind {
        TreeRowKind::Window { active, .. } => if active {
            seq![(" "@ + g.active@ + " active"@, SpanRole::BadgeActive)]
        } else {
            Seq::empty()
        },
        _ => Seq::empty(),
    };
    let alert: Seq<(Seq<char>, SpanRole)> = match r.kind {
        TreeRowKind::Window { alert, .. } => if alert == WindowAlert::Bell {
            seq![(alert_badge_text(g, k), SpanRole::BadgeAlert)]
        } else {
            Seq::empty()
        },
        _ => Seq::empty(),
    };
    active + alert
}

/// Line `i` of the tree of `state`: its style (focused, edited in place, or
/// disabled while another row is edited) and its spans (focus marker, branch,
/// label or edit prompt, with the row's jump label over it while jumping, and
/// badges).
pub open spec fn tree_line_spec(state: AppState, g: Glyphs, i: int) -> (RowStyle, Seq<(Seq<char>, SpanRole)>) {
    let rows = state.rows();
    let row = rows[i];
    let focused = i == focused_pos(rows, state.focus@);
    let edit = inline_edit_of(state.mode);
    let editing = edit matches Some(e) && e.0 == row.focus@;
    let disabled = state.mode != Mode::Normal && !editing;
    let style = if editing {
        if focused { RowStyle::InlineEditFocused } else { RowStyle::InlineEdit }
    } else if focused {
        RowStyle::Focused
    } else if disabled {
        RowStyle::Disabled
    } else {
        RowStyle::Base
    };
    let marker = if focused { seq![(g.focus@, SpanRole::MarkerFocus)] } else { seq![(" "@, SpanRole::MarkerIdle)] };
    let label = if editing {
        inline_label_spec(row.kind, edit.unwrap().1, edit.unwrap().2, g)
    } else if state.navigation.jumping && i < jump_labels().len() {
        jump_overlay(label_spec(row.kind, g), jump_labels()[i])
    } else {
        label_spec(row.kind, g)
    };
    let alerts_before = alert_rows(rows, i as nat).len() as int;
    (style, marker + seq![(" "@, SpanRole::Plain)] + branch_spec(row.kind, g) + label + badges_spec(
        row,
        g,
        alerts_before,
    ))
}

fn span(text: &str, role: SpanRole) -> (s: TreeSpan)
    ensures
        span_view(s) == (text@, role),
{
    TreeSpan { text: to_owned_string(text), role }
}

fn push_span(v: &mut Vec<TreeSpan>, s: TreeSpan)
    ensures
        spans_view(final(v)@) == spans_view(old(v)@).push(span_view(s)),
{
    let ghost before = v@;
    v.push(s);
    assert(spans_view(v@) =~= spans_view(before).push(span_view(s)));
}

fn label_spans(v: &mut Vec<TreeSpan>, kind: &TreeRowKind, g: Glyphs)
    ensures
        spans_view(final(v)@) == spans_view(old(v)@) + label_spec(*kind, g),
{
    let ghost before = spans_view(v@);
    match kind {
        TreeRowKind::CreateSession => {
            push_span(v, span(g.create, SpanRole::MarkerCreate));
            push_span(v, span(" new session", SpanRole::RowMuted));
        },
        TreeRowKind::Session { name, attached_count, .. } => {
            push_span(v, span(name.as_str(), SpanRole::RowText));
            if *attached_count > 0 {
                let mut t = to_owned_string(" (");
                push_decimal(&mut t, *attached_count as u64);
                push_str(&mut t, " attached)");
                push_span(v, TreeSpan { text: t, role: SpanRole::RowMuted });
            }
        },
        TreeRowKind::Window { index, name, .. } => {
            let mut t = String::new();
            push_decimal(&mut t, *index as u64);
            push_str(&mut t, " ");
            push_str(&mut t, name.as_str());
            push_span(v, TreeSpan { text: t, role: SpanRole::RowText });
        },
        TreeRowKind::CreateWindow { .. } => {
            push_span(v, span(g.create, SpanRole::MarkerCreate));
            push_span(v, span(" new window", SpanRole::RowMuted));
        },
    }
    assert(spans_view(v@) =~= before + label_spec(*kind, g));
}

fn noun(kind: &TreeRowKind) -> (n: &'static str)
    ensures
        n@ == noun_of(*kind),
{
    match kind {
        TreeRowKind::Session { .. } => "session",
        TreeRowKind::CreateSession => "session",
        TreeRowKind::Window { .. } => "window",
        TreeRowKind::CreateWindow { .. } => "window",
    }
}

fn inline_label_spans(v: &mut Vec<TreeSpan>, kind: &TreeRowKind, input: &InputBuffer, create: bool, g: Glyphs)
    ensures
        spans_view(final(v)@) == spans_view(old(v)@) + inline_label_spec(*kind, input@, create, g),
{
    let ghost before = spans_view(v@);
    push_span(v, span(g.inline_prefix, SpanRole::MarkerCreate));
    let mut prompt = to_owned_string(" ");
    if create {
        push_str(&mut prompt, "new ");
        push_str(&mut prompt, noun(kind));
        push_str(&mut prompt, " name");
    } else {
        push_str(&mut prompt, "rename ");
        push_str(&mut prompt, noun(kind));
    }
    push_str(&mut prompt, ": ");
    let ghost action = if create { "new "@ + noun_of(*kind) + " name"@ } else { "rename "@ + noun_of(*kind) };
    assert(prompt@ =~= " "@ + action + ": "@);
    push_span(v, TreeSpan { text: prompt, role: SpanRole::RowText });
    let (head, tail) = input.split_at_cursor();
    let mut field = head;
    push_str(&mut field, "|");
    push_str(&mut field, tail.as_str());
    let ghost t = input@.text;
    let ghost c = input@.cursor as int;
    assert(field@ =~= t.subrange(0, c) + "|"@ + t.subrange(c, t.len() as int));
    push_span(v, TreeSpan { text: field, role: SpanRole::RowWarning });
    assert(spans_view(v@) =~= before + inline_label_spec(*kind, input@, create, g));
}

fn alert_digit(k: usize) -> (d: char)
    requires
        k < 10,
    ensures
        d == alert_digits()[k as int],
{
    let digits = "1234567890";
    proof {
        reveal_strlit("1234567890");
    }
    assert(digits@ =~= alert_digits());
    digits.get_char(k)
}

/// Appends `label` with the jump label `c` over its first character.
fn jump_label_spans(v: &mut Vec<TreeSpan>, label: Vec<TreeSpan>, c: char)
    ensures
        spans_view(final(v)@) == spans_view(old(v)@) + jump_overlay(spans_view(label@), c),
{
    let ghost before = spans_view(v@);
    let ghost lv = spans_view(label@);
    let mut mark = String::new();
    push_char(&mut mark, c);
    push_span(v, TreeSpan { text: mark, role: SpanRole::JumpLabel });
    if label.len() == 0 {
        assert(spans_view(v@) =~= before + jump_overlay(lv, c));
        return;
    }
    let chars = chars_of(label[0].text.as_str());
    let rest = if chars.len() > 0 {
        string_from_chars(slice_subrange(chars.as_slice(), 1, chars.len()))
    } else {
        String::new()
    };
    assert(rest@ == after_first(lv[0].0));
    push_span(v, TreeSpan { text: rest, role: label[0].role });
    let mut j: usize = 1;
    while j < label.len()
        invariant
            1 <= j <= label@.len(),
            lv == spans_view(label@),
            spans_view(v@) == before + seq![(seq![c], SpanRole::JumpLabel), (after_first(lv[0].0), lv[0].1)]
                + lv.subrange(1, j as int),
        decreases label@.len() - j,
    {
        let text = label[j].text.clone();
        push_span(v, TreeSpan { text, role: label[j].role });
        assert(lv.subrange(1, j + 1) =~= lv.subrange(1, j as int).push(lv[j as int]));
        j = j + 1;
    }
    assert(spans_view(v@) =~= before + jump_overlay(lv, c));
}

fn badge_spans(v: &mut Vec<TreeSpan>, row: &TreeRow, g: Glyphs, alerts_before: usize)
    ensures
        spans_view(final(v)@) == spans_view(old(v)@) + badges_spec(*row, g, alerts_before as int),
{
    let ghost before = spans_view(v@);
    if row.active() {
        let mut t = to_owned_string(" ");
        push_str(&mut t, g.active);
        push_str(&mut t, " active");
        push_span(v, TreeSpan { text: t, role: SpanRole::BadgeActive });
    }
    if row.alert().is_some() {
        let mut t = to_owned_string(" ");
        if alerts_before < 10 {
            push_str(&mut t, "[");
            push_char(&mut t, alert_digit(alerts_before));
            push_str(&mut t, "] ");
        }
        push_str(&mut t, g.alert);
        push_str(&mut t, " alert");
        proof {
            reveal_strlit(" ");
            reveal_strlit(" [");
            reveal_strlit("[");
            reveal_strlit("] ");
        }
        assert(t@ =~= alert_badge_text(g, alerts_before as int));
        push_span(v, TreeSpan { text: t, role: SpanRole::BadgeAlert });
    }
    assert(spans_view(v@) =~= before + badges_spec(*row, g, alerts_before as int));
}

fn inline_edit_target(mode: &Mode) -> (r: Option<(Focus, &InputBuffer, bool)>)
    ensures
        match r {
            Some((f, input, create)) => inline_edit_of(*mode) == Some((f@, input@, create)),
            None => inline_edit_of(*mode).is_none(),
        },
{
    match mode {
        Mode::RenameSession { id, input, .. } => Some((Focus::Session(id.clone()), input, false)),
        Mode::RenameWindow { session_id, id, input, .. } => Some(
            (Focus::Window { session_id: session_id.clone(), window_id: id.clone() }, input, false),
        ),
        Mode::CreateSessionName { input } => Some((Focus::CreateSession, input, true)),
        Mode::CreateWindowName { session_id, input } => Some((Focus::CreateWindow(session_id.clone()), input, true)),
        Mode::Normal => None,
        Mode::Help => None,
    }
}

impl TreeView {
    /// The lines of the tree of `state`, drawn with `glyphs`.
    pub fn from_state(state: &AppState, glyphs: Glyphs) -> (t: Self)
        ensures
            t.lines@.len() == state.rows().len(),
            forall|i: int| 0 <= i < t.lines@.len() ==> (#[trigger] t.lines@[i].style, spans_view(t.lines@[i].spans@))
                == tree_line_spec(*state, glyphs, i),
    {
        let rows = state.tree_rows();
        let focused = state.focused_row_index();
        let edit = inline_edit_target(&state.mode);
        let normal = match &state.mode {
            Mode::Normal => true,
            _ => false,
        };
        let jumping = state.navigation.jumping;
        let mut alerts_before: usize = 0;
        let mut lines: Vec<TreeLine> = Vec::new();
        let mut i: usize = 0;
        while i < rows.len()
            invariant
                i <= rows@.len(),
                rows@ == state.rows(),
                jumping == state.navigation.jumping,
                alerts_before as int == alert_rows(rows@, i as nat).len(),
                alerts_before <= i,
                match focused {
                    Some(p) => p as int == focused_pos(state.rows(), state.focus@),
                    None => focused_pos(state.rows(), state.focus@) == -1,
                },
                match edit {
                    Some((f, input, create)) => inline_edit_of(state.mode) == Some((f@, input@, create)),
                    None => inline_edit_of(state.mode).is_none(),
                },
                normal == (state.mode == Mode::Normal),
                lines@.len() == i,
                forall|k: int| 0 <= k < i ==> (#[trigger] lines@[k].style, spans_view(lines@[k].spans@))
                    == tree_line_spec(*state, glyphs, k),
            decreases rows@.len() - i,
        {
            let row = &rows[i];
            let is_focused = match focused {
                Some(p) => p == i,
                None => false,
            };
            let editing = match &edit {
                Some((f, _, _)) => f.same_as(&row.focus),
                None => false,
            };
            let disabled = !normal && !editing;
            let style = if editing {
                if is_focused { RowStyle::InlineEditFocused } else { RowStyle::InlineEdit }
            } else if is_focused {
                RowStyle::Focused
            } else if disabled {
                RowStyle::Disabled
            } else {
                RowStyle::Base
            };
            let mut spans: Vec<TreeSpan> = Vec::new();
            if is_focused {
                push_span(&mut spans, span(glyphs.focus, SpanRole::MarkerFocus));
            } else {
                push_span(&mut spans, span(" ", SpanRole::MarkerIdle));
            }
            push_span(&mut spans, span(" ", SpanRole::Plain));
            match &row.kind {
                TreeRowKind::Window { .. } => {
                    push_span(&mut spans, span(glyphs.tree_branch, SpanRole::MarkerIdle));
                    push_span(&mut spans, span(" ", SpanRole::Plain));
                },
                TreeRowKind::CreateWindow { .. } => {
                    push_span(&mut spans, span(glyphs.tree_last, SpanRole::MarkerIdle));
                    push_span(&mut spans, span(" ", SpanRole::Plain));
                },
                _ => {},
            }
            match &edit {
                Some((_, input, create)) if editing => inline_label_spans(&mut spans, &row.kind, input, *create, glyphs),
                _ => {
                    if jumping && i < 52 {
                        let mut label: Vec<TreeSpan> = Vec::new();
                        label_spans(&mut label, &row.kind, glyphs);
                        assert(spans_view(label@) =~= label_spec(row.kind, glyphs));
                        jump_label_spans(&mut spans, label, jump_label(i));
                    } else {
                        label_spans(&mut spans, &row.kind, glyphs);
                    }
                },
            }
            badge_spans(&mut spans, row, glyphs, alerts_before);
            proof {
                let (st, sv) = tree_line_spec(*state, glyphs, i as int);
                assert(st == style);
                assert(spans_view(spans@) =~= sv);
            }
            lines.push(TreeLine { style, spans });
            if is_alerted_row(row) {
                alerts_before = alerts_before + 1;
            }
            i = i + 1;
        }
        TreeView { lines }
    }
}

/// Whether some span of `s` carries `role`.
pub open spec fn has_role(s: Seq<(Seq<char>, SpanRole)>, role: SpanRole) -> bool {
    exists|j: int| 0 <= j < s.len() && (#[trigger] s[j]).1 == role
}

proof fn lemma_has_role_concat(a: Seq<(Seq<char>, SpanRole)>, b: Seq<(Seq<char>, SpanRole)>, role: SpanRole)
    ensures
        has_role(a + b, role) == (has_role(a, role) || has_role(b, role)),
{
    let ab = a + b;
    if has_role(ab, role) {
        let j = choose|j: int| 0 <= j < ab.len() && (#[trigger] ab[j]).1 == role;
        if j < a.len() {
            assert(a[j] == ab[j]);
        } else {
            assert(b[j - a.len()] == ab[j]);
        }
    }
    if has_role(a, role) {
        let j = choose|j: int| 0 <= j < a.len() && (#[trigger] a[j]).1 == role;
        assert(ab[j] == a[j]);
    }
    if has_role(b, role) {
        let j = choose|j: int| 0 <= j < b.len() && (#[trigger] b[j]).1 == role;
        assert(ab[j + a.len()] == b[j]);
    }
}

/// Whether no span of `s` is a focus marker or a badge.
pub open spec fn free_of_marks(s: Seq<(Seq<char>, SpanRole)>) -> bool {
    &&& !has_role(s, SpanRole::MarkerFocus)
    &&& !has_role(s, SpanRole::BadgeActive)
    &&& !has_role(s, SpanRole::BadgeAlert)
}

proof fn lemma_label_free_of_marks(state: AppState, g: Glyphs, i: int)
    requires
        0 <= i < state.rows().len(),
    ensures
        ({
            let row = state.rows()[i];
            let edit = inline_edit_of(state.mode);
            &&& free_of_marks(label_spec(row.kind, g))
            &&& free_of_marks(branch_spec(row.kind, g))
            &&& edit is Some ==> free_of_marks(inline_label_spec(row.kind, edit.unwrap().1, edit.unwrap().2, g))
            &&& i < jump_labels().len() ==> free_of_marks(jump_overlay(label_spec(row.kind, g), jump_labels()[i]))
        }),
{
    let row = state.rows()[i];
    let label = label_spec(row.kind, g);
    assert(free_of_marks(label));
    assert(free_of_marks(branch_spec(row.kind, g)));
    let edit = inline_edit_of(state.mode);
    if edit is Some {
        assert(free_of_marks(inline_label_spec(row.kind, edit.unwrap().1, edit.unwrap().2, g)));
    }
    if i < jump_labels().len() && label.len() > 0 {
        let head = seq![(seq![jump_labels()[i]], SpanRole::JumpLabel), (after_first(label[0].0), label[0].1)];
        let tail = label.subrange(1, label.len() as int);
        assert(free_of_marks(head));
        assert forall|role: SpanRole| has_role(tail, role) implies has_role(label, role) by {
            let j = choose|j: int| 0 <= j < tail.len() && (#[trigger] tail[j]).1 == role;
            assert(label[j + 1] == tail[j]);
        }
        lemma_has_role_concat(head, tail, SpanRole::MarkerFocus);
        lemma_has_role_concat(head, tail, SpanRole::BadgeActive);
        lemma_has_role_concat(head, tail, SpanRole::BadgeAlert);
    }
}

/// Every line of the tree starts with the focus marker exactly when its row is
/// the focused one, and carries no other focus marker; it carries the active
/// badge exactly when its row is the visible window of its session, and the
/// alert badge exactly when its row is a window with a bell.
pub proof fn law_tree_line_marks(state: AppState, g: Glyphs, i: int)
    requires
        0 <= i < state.rows().len(),
    ensures
        ({
            let spans = tree_line_spec(state, g, i).1;
            let row = state.rows()[i];
            &&& spans.len() > 0
            &&& (spans[0].1 == SpanRole::MarkerFocus) == (i == focused_pos(state.rows(), state.focus@))
            &&& i == focused_pos(state.rows(), state.focus@) ==> spans[0].0 == g.focus@
            &&& !has_role(spans.subrange(1, spans.len() as int), SpanRole::MarkerFocus)
            &&& has_role(spans, SpanRole::BadgeActive) == (row.kind matches TreeRowKind::Window { active, .. } && active)
            &&& has_role(spans, SpanRole::BadgeAlert) == (row.kind matches TreeRowKind::Window { alert, .. } && alert
                == WindowAlert::Bell)
        }),
{
    let rows = state.rows();
    let row = rows[i];
    let focused = i == focused_pos(rows, state.focus@);
    let edit = inline_edit_of(state.mode);
    let editing = edit matches Some(e) && e.0 == row.focus@;
    let marker: Seq<(Seq<char>, SpanRole)> = if focused {
        seq![(g.focus@, SpanRole::MarkerFocus)]
    } else {
        seq![(" "@, SpanRole::MarkerIdle)]
    };
    let label = if editing {
        inline_label_spec(row.kind, edit.unwrap().1, edit.unwrap().2, g)
    } else if state.navigation.jumping && i < jump_labels().len() {
        jump_overlay(label_spec(row.kind, g), jump_labels()[i])
    } else {
        label_spec(row.kind, g)
    };
    let k = alert_rows(rows, i as nat).len() as int;
    let badges = badges_spec(row, g, k);
    let plain: Seq<(Seq<char>, SpanRole)> = seq![(" "@, SpanRole::Plain)];
    let branch = branch_spec(row.kind, g);
    let rest = plain + branch + label + badges;
    let spans = tree_line_spec(state, g, i).1;
    assert(spans == marker + rest);
    lemma_label_free_of_marks(state, g, i);
    assert(free_of_marks(label));
    assert(free_of_marks(plain));
    assert(!has_role(badges, SpanRole::MarkerFocus));
    assert(has_role(badges, SpanRole::BadgeActive) == (row.kind matches TreeRowKind::Window { active, .. } && active)) by {
        if row.kind matches TreeRowKind::Window { active, .. } && active {
            assert(badges[0].1 == SpanRole::BadgeActive);
        }
    }
    assert(has_role(badges, SpanRole::BadgeAlert) == (row.kind matches TreeRowKind::Window { alert, .. } && alert
        == WindowAlert::Bell)) by {
        if row.kind matches TreeRowKind::Window { alert, .. } && alert == WindowAlert::Bell {
            assert(badges[badges.len() - 1].1 == SpanRole::BadgeAlert);
        }
    }
    let roles = seq![SpanRole::MarkerFocus, SpanRole::BadgeActive, SpanRole::BadgeAlert];
    assert forall|n: int| 0 <= n < 3 implies has_role(rest, #[trigger] roles[n]) == has_role(badges, roles[n]) by {
        lemma_has_role_concat(plain, branch, roles[n]);
        lemma_has_role_concat(plain + branch, label, roles[n]);
        lemma_has_role_concat(plain + branch + label, badges, roles[n]);
    }
    assert(has_role(rest, roles[0]) == has_role(badges, roles[0]));
    assert(has_role(rest, roles[1]) == has_role(badges, roles[1]));
    assert(has_role(rest, roles[2]) == has_role(badges, roles[2]));
    lemma_has_role_concat(marker, rest, SpanRole::BadgeActive);
    lemma_has_role_concat(marker, rest, SpanRole::BadgeAlert);
    assert(spans.subrange(1, spans.len() as int) == rest);
}

/// The footer's key hints for the state of the view.
pub open spec fn key_hints_spec(state: AppState) -> Seq<char> {
    if state.tree_loading || (state.target_client.is_some() && state.tmux.sessions@.len() == 0) {
        "Loading tmux tree..."@
    } else if state.navigation.jumping {
        "Jump: type label to switch  invalid key cancels"@
    } else {
        match state.mode {
            Mode::Normal => "Enter switch  1-9/0 alert  n session  s jump  c window  gg/G  r rename  x close  ? help  q quit"@,
            Mode::Help => "Esc close help  ? close help  q quit"@,
            Mode::RenameSession { .. } => "Enter accept  Esc revert  Ctrl+u clear"@,
            Mode::RenameWindow { .. } => "Enter accept  Esc revert  Ctrl+u clear"@,
            Mode::CreateSessionName { .. } => "Enter create  Esc cancel  Ctrl+u clear"@,
            Mode::CreateWindowName { .. } => "Enter create  Esc cancel  Ctrl+u clear"@,
        }
    }
}

/// The footer's key hints for the state of the view.
pub fn key_hints(state: &AppState) -> (h: &'static str)
    ensures
        h@ == key_hints_spec(*state),
{
    if state.is_tree_loading() {
        return "Loading tmux tree...";
    }
    if state.navigation.jumping {
        return "Jump: type label to switch  invalid key cancels";
    }
    match &state.mode {
        Mode::Normal => "Enter switch  1-9/0 alert  n session  s jump  c window  gg/G  r rename  x close  ? help  q quit",
        Mode::Help => "Esc close help  ? close help  q quit",
        Mode::RenameSession { .. } | Mode::RenameWindow { .. } => "Enter accept  Esc revert  Ctrl+u clear",
        Mode::CreateSessionName { .. } | Mode::CreateWindowName { .. } => "Enter create  Esc cancel  Ctrl+u clear",
    }
}

proof fn lemma_first_session_unique(ss: Seq<Session>, id: Seq<char>, p: int, q: int)
    requires
        first_session_at(ss, id, p),
        first_session_at(ss, id, q),
    ensures
        p == q,
{
    if p < q {
        assert(ss[p].id@ != id);
    } else if q < p {
        assert(ss[q].id@ != id);
    }
}

proof fn lemma_first_window_unique(ws: Seq<Window>, id: Seq<char>, p: int, q: int)
    requires
        first_window_at(ws, id, p),
        first_window_at(ws, id, q),
    ensures
        p == q,
{
    if p < q {
        assert(ws[p].id@ != id);
    } else if q < p {
        assert(ws[q].id@ != id);
    }
}

/// The header's description of what the target client shows: its window as
/// `session:index.name`, or else its session's name; `loading...` while the
/// tree loads and `none` when nothing is shown.
pub open spec fn active_label_spec(state: AppState) -> Seq<char> {
    let ss = state.tmux.sessions@;
    let target = target_of(state.target_client);
    let d = state.tmux.domain();
    if state.tree_loading || (state.target_client.is_some() && ss.len() == 0) {
        "loading..."@
    } else if d.visible_key(target) matches Some(k) && exists|p: int, q: int|
        first_session_at(ss, k.0, p) && first_window_at(ss[p].windows@, k.1, q) {
        let k = d.visible_key(target).unwrap();
        let (p, q) = choose|p: int, q: int| first_session_at(ss, k.0, p) && first_window_at(ss[p].windows@, k.1, q);
        ss[p].name@ + ":"@ + decimal(ss[p].windows@[q].index as nat) + "."@ + ss[p].windows@[q].name@
    } else if d.visible_session_id(target) matches Some(id) && exists|p: int| first_session_at(ss, id, p) {
        let id = d.visible_session_id(target).unwrap();
        ss[choose|p: int| first_session_at(ss, id, p)].name@
    } else {
        "none"@
    }
}

/// The header's description of what the target client shows.
pub fn active_target_label(state: &AppState) -> (label: String)
    ensures
        label@ == active_label_spec(*state),
{
    if state.is_tree_loading() {
        return to_owned_string("loading...");
    }
    let target: Option<&ClientName> = match &state.target_client {
        Some(n) => Some(n),
        None => None,
    };
    let ghost ss = state.tmux.sessions@;
    let ghost d = state.tmux.domain();
    let ghost t = target_of(state.target_client);
    assert(target_view(target) == t);
    match state.tmux.visible_window(target) {
        Some((session, window)) => {
            let mut label = session.name.clone();
            push_str(&mut label, ":");
            push_decimal(&mut label, window.index as u64);
            push_str(&mut label, ".");
            push_str(&mut label, window.name.as_str());
            proof {
                let k = d.visible_key(t).unwrap();
                let (p, q) = choose|p: int, q: int| first_session_at(ss, k.0, p) && first_window_at(ss[p].windows@, k.1, q)
                    && *session == ss[p] && *window == ss[p].windows@[q];
                let (p2, q2) = choose|p: int, q: int| first_session_at(ss, k.0, p) && first_window_at(ss[p].windows@, k.1, q);
                lemma_first_session_unique(ss, k.0, p, p2);
                lemma_first_window_unique(ss[p].windows@, k.1, q, q2);
            }
            return label;
        },
        None => {
            proof {
                match d.visible_key(t) {
                    Some(k) => {
                        if exists|p: int, q: int| first_session_at(ss, k.0, p) && first_window_at(ss[p].windows@, k.1, q) {
                            let (p, q) = choose|p: int, q: int| first_session_at(ss, k.0, p) && first_window_at(ss[p].windows@, k.1, q);
                            if forall|j: int| 0 <= j < ss.len() ==> (#[trigger] ss[j]).id@ != k.0 {
                                assert(ss[p].id@ == k.0);
                            } else {
                                let p2 = choose|p2: int| first_session_at(ss, k.0, p2)
                                    && forall|j: int| 0 <= j < ss[p2].windows@.len() ==> (#[trigger] ss[p2].windows@[j]).id@ != k.1;
                                lemma_first_session_unique(ss, k.0, p, p2);
                                assert(ss[p].windows@[q].id@ == k.1);
                            }
                        }
                    },
                    None => {},
                }
            }
        },
    }
    match state.tmux.visible_session(target) {
        Some(session) => {
            proof {
                let id = d.visible_session_id(t).unwrap();
                let p = choose|p: int| first_session_at(ss, id, p) && *session == ss[p];
                lemma_first_session_unique(ss, id, p, choose|p: int| first_session_at(ss, id, p));
            }
            session.name.clone()
        },
        None => {
            proof {
                match d.visible_session_id(t) {
                    Some(id) => {
                        if exists|p: int| first_session_at(ss, id, p) {
                            let p = choose|p: int| first_session_at(ss, id, p);
                            assert(ss[p].id@ == id);
                        }
                    },
                    None => {},
                }
            }
            to_owned_string("none")
        },
    }
}

/// The header's two parts: the application's name with its icon, and the
/// target client with what it shows.
pub fn header_texts(state: &AppState, glyphs: Glyphs) -> (h: (String, String))
    ensures
        h.0@ == " "@ + glyphs.app_icon@ + " tmux-sidecar "@,
        h.1@ == glyphs.separator@ + " target "@ + match state.target_client {
            Some(c) => c.0@,
            None => "none"@,
        } + " "@ + glyphs.separator@ + " active "@ + active_label_spec(*state),
{
    let mut title = to_owned_string(" ");
    push_str(&mut title, glyphs.app_icon);
    push_str(&mut title, " tmux-sidecar ");
    let mut text = to_owned_string(glyphs.separator);
    push_str(&mut text, " target ");
    match &state.target_client {
        Some(c) => push_str(&mut text, c.0.as_str()),
        None => push_str(&mut text, "none"),
    }
    push_str(&mut text, " ");
    push_str(&mut text, glyphs.separator);
    push_str(&mut text, " active ");
    let active = active_target_label(state);
    push_str(&mut text, active.as_str());
    (title, text)
}

/// The lines of the help modal: the keys, then a legend of the glyphs.
pub open spec fn modal_lines_spec(g: Glyphs) -> Seq<Seq<(Seq<char>, SpanRole)>> {
    seq![
        seq![("Keybindings"@, SpanRole::MarkerFocus)],
        seq![("gg / G          first / last row"@, SpanRole::Plain)],
        seq![("Up/Down or j/k  move focus"@, SpanRole::Plain)],
        seq![("Enter           switch or create"@, SpanRole::Plain)],
        seq![("1-9,0           jump to numbered alert"@, SpanRole::Plain)],
        seq![("n               start new session"@, SpanRole::Plain)],
        seq![("s               jump to row label"@, SpanRole::Plain)],
        seq![("c               new window in focused session"@, SpanRole::Plain)],
        seq![("r               rename focused session/window"@, SpanRole::Plain)],
        seq![("x               close focused session/window"@, SpanRole::Plain)],
        seq![("?               toggle help"@, SpanRole::Plain)],
        seq![("q               quit"@, SpanRole::Plain)],
        Seq::empty(),
        seq![("Legend"@, SpanRole::MarkerFocus)],
        seq![
            (g.focus@ + " focused"@, SpanRole::MarkerFocus),
            ("   "@, SpanRole::Plain),
            (g.active@ + " active"@, SpanRole::BadgeActive),
            ("   "@, SpanRole::Plain),
            (g.alert@ + " alert"@, SpanRole::BadgeAlert),
        ],
        seq![(g.rename@ + " inline-edit"@, SpanRole::Plain)],
        seq![("Failed actions refresh from tmux."@, SpanRole::Plain)],
    ]
}

fn line_of(text: &str, role: SpanRole) -> (v: Vec<TreeSpan>)
    ensures
        spans_view(v@) == seq![(text@, role)],
{
    let v = vec![span(text, role)];
    assert(spans_view(v@) =~= seq![(text@, role)]);
    v
}

fn glyph_text(glyph: &str, rest: &str) -> (s: String)
    ensures
        s@ == glyph@ + rest@,
{
    let mut s = to_owned_string(glyph);
    push_str(&mut s, rest);
    s
}

/// The lines of the help modal for a glyph mode.
pub fn modal_lines(mode: GlyphMode) -> (lines: Vec<Vec<TreeSpan>>)
    ensures
        lines@.len() == modal_lines_spec(Glyphs::from_mode_spec(mode)).len(),
        forall|i: int| 0 <= i < lines@.len() ==> spans_view((#[trigger] lines@[i])@) == modal_lines_spec(
            Glyphs::from_mode_spec(mode),
        )[i],
{
    let g = Glyphs::from_mode(mode);
    let mut lines: Vec<Vec<TreeSpan>> = Vec::new();
    lines.push(line_of("Keybindings", SpanRole::MarkerFocus));
    lines.push(line_of("gg / G          first / last row", SpanRole::Plain));
    lines.push(line_of("Up/Down or j/k  move focus", SpanRole::Plain));
    lines.push(line_of("Enter           switch or create", SpanRole::Plain));
    lines.push(line_of("1-9,0           jump to numbered alert", SpanRole::Plain));
    lines.push(line_of("n               start new session", SpanRole::Plain));
    lines.push(line_of("s               jump to row label", SpanRole::Plain));
    lines.push(line_of("c               new window in focused session", SpanRole::Plain));
    lines.push(line_of("r               rename focused session/window", SpanRole::Plain));
    lines.push(line_of("x               close focused session/window", SpanRole::Plain));
    lines.push(line_of("?               toggle help", SpanRole::Plain));
    lines.push(line_of("q               quit", SpanRole::Plain));
    let empty: Vec<TreeSpan> = Vec::new();
    assert(spans_view(empty@) =~= Seq::<(Seq<char>, SpanRole)>::empty());
    lines.push(empty);
    lines.push(line_of("Legend", SpanRole::MarkerFocus));
    let mut legend: Vec<TreeSpan> = Vec::new();
    push_span(&mut legend, TreeSpan { text: glyph_text(g.focus, " focused"), role: SpanRole::MarkerFocus });
    push_span(&mut legend, span("   ", SpanRole::Plain));
    push_span(&mut legend, TreeSpan { text: glyph_text(g.active, " active"), role: SpanRole::BadgeActive });
    push_span(&mut legend, span("   ", SpanRole::Plain));
    push_span(&mut legend, TreeSpan { text: glyph_text(g.alert, " alert"), role: SpanRole::BadgeAlert });
    lines.push(legend);
    lines.push(vec![TreeSpan { text: glyph_text(g.rename, " inline-edit"), role: SpanRole::Plain }]);
    lines.push(line_of("Failed actions refresh from tmux.", SpanRole::Plain));
    proof {
        let last = lines@[15];
        assert(spans_view(last@) =~= seq![(g.rename@ + " inline-edit"@, SpanRole::Plain)]);
        assert(spans_view(lines@[14]@) =~= modal_lines_spec(g)[14]);
        assert forall|i: int| 0 <= i < lines@.len() implies spans_view((#[trigger] lines@[i])@) == modal_lines_spec(g)[i] by {}
    }
    lines
}

/// A character with ASCII upper case letters folded to lower case, compared
/// with a lower-case `expected`.
pub open spec fn ascii_folds_to(c: char, expected: char) -> bool {
    c == expected || ('A' <= c && c <= 'Z' && (c as u32) + 32 == (expected as u32))
}

/// `s` equals the lower-case `expected` when ASCII case is ignored.
pub open spec fn eq_ignore_ascii_case_spec(s: Seq<char>, expected: Seq<char>) -> bool {
    s.len() == expected.len() && forall|i: int| 0 <= i < s.len() ==> ascii_folds_to(#[trigger] s[i], expected[i])
}

fn eq_ignore_ascii_case(s: &str, expected: &str) -> (b: bool)
    ensures
        b == eq_ignore_ascii_case_spec(s@, expected@),
{
    let a = crate::text::chars_of(s);
    let e = crate::text::chars_of(expected);
    if a.len() != e.len() {
        return false;
    }
    let mut i: usize = 0;
    while i < a.len()
        invariant
            a@ == s@,
            e@ == expected@,
            a@.len() == e@.len(),
            i <= a@.len(),
            forall|k: int| 0 <= k < i ==> ascii_folds_to(#[trigger] a@[k], e@[k]),
        decreases a@.len() - i,
    {
        let c = a[i];
        let x = e[i];
        let ok = c == x || ('A' <= c && c <= 'Z' && (c as u32) + 32 == (x as u32));
        if !ok {
            return false;
        }
        i = i + 1;
    }
    true
}

/// Whether an environment value turns a setting on: `1`, `true`, `yes` or
/// `on`, in any ASCII case.
pub open spec fn truthy_spec(v: Option<Seq<char>>) -> bool {
    match v {
        Some(s) => eq_ignore_ascii_case_spec(s, "1"@) || eq_ignore_ascii_case_spec(s, "true"@)
            || eq_ignore_ascii_case_spec(s, "yes"@) || eq_ignore_ascii_case_spec(s, "on"@),
        None => false,
    }
}

/// The glyph mode that the settings ask for: ASCII when the ASCII switch is
/// on or the glyph setting says `ascii` (in any case), else Nerd Font glyphs.
pub fn glyph_mode_from_settings(ascii_switch: Option<&str>, glyph_setting: Option<&str>) -> (m: GlyphMode)
    ensures
        m == (if truthy_spec(match ascii_switch {
            Some(s) => Some(s@),
            None => None,
        }) || (glyph_setting matches Some(g) && eq_ignore_ascii_case_spec(g@, "ascii"@)) {
            GlyphMode::Ascii
        } else {
            GlyphMode::Nerd
        }),
{
    let truthy = match ascii_switch {
        Some(v) => eq_ignore_ascii_case(v, "1") || eq_ignore_ascii_case(v, "true") || eq_ignore_ascii_case(v, "yes")
            || eq_ignore_ascii_case(v, "on"),
        None => false,
    };
    if truthy {
        return GlyphMode::Ascii;
    }
    match glyph_setting {
        Some(g) => if eq_ignore_ascii_case(g, "ascii") { GlyphMode::Ascii } else { GlyphMode::Nerd },
        None => GlyphMode::Nerd,
    }
}

/// The frame of the activity animation at `elapsed_ms` since the epoch: a new
/// frame every 400 ms, three frames in turn.
pub fn activity_animation_frame(elapsed_ms: u128) -> (f: usize)
    ensures
        f as int == (elapsed_ms / 400) % 3,
{
    ((elapsed_ms / 400) % 3) as usize
}

/// A rectangle of the terminal.
#[derive(Debug, Clone, Copy, PartialEq, Eq, Default, Structural)]
pub struct Area {
    pub x: u16,
    pub y: u16,
    pub width: u16,
    pub height: u16,
}

/// The rectangle centered in `area`, at most `max_width` wide and `height`
/// high.
pub fn centered_rect(area: Area, max_width: u16, height: u16) -> (r: Area)
    requires
        area.x + area.width <= u16::MAX,
        area.y + area.height <= u16::MAX,
    ensures
        r.width == (if area.width < max_width { area.width } else { max_width }),
        r.x == area.x + (area.width - r.width) / 2,
        r.y == area.y + (if area.height > height { area.height - height } else { 0 }) / 2,
        r.height == (if area.height < height { area.height } else { height }),
{
    let width = if area.width < max_width { area.width } else { max_width };
    let x = area.x + (area.width - width) / 2;
    let spare = if area.height > height { area.height - height } else { 0 };
    let y = area.y + spare / 2;
    Area { x, y, width, height: if area.height < height { area.height } else { height } }
}
} // verus!
