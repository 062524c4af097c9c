//! What is shown on the terminal.
use vstd::prelude::*;

use crate::manager::{ConnStateView, HostAggState, LogLevel};
use crate::text;
use crate::tunnel;
use crate::ui::draw;
use crate::ui::draw::{BodyView, Color, PanelView, Rect, RowSize, Style};
use crate::ui::{AppView, ConfirmView, FormView, ModalView, RowView};

verus! {

/// What is centered is as wide and as high as it is to be, as far as there is room, and has the
/// same space on both sides, or one more behind than in front.
pub proof fn centered_is_in_the_middle(area: Rect, w: u16, h: u16)
    requires
        area.wf(),
    ensures
        ({
            let r = draw::middle_of(area, w, h);
            let left = r.x - area.x;
            let right = area.x + area.width - (r.x + r.width);
            let above = r.y - area.y;
            let below = area.y + area.height - (r.y + r.height);
            &&& r.width == if w <= area.width {
                w
            } else {
                area.width
            }
            &&& r.height == if h <= area.height {
                h
            } else {
                area.height
            }
            &&& 0 <= left <= right <= left + 1
            &&& 0 <= above <= below <= above + 1
        }),
{
}

/// A panel over the tree is sixty wide where the terminal is at least four wider, and else four
/// less than the terminal.
pub proof fn popups_leave_room(area: Rect, fields: nat)
    requires
        fields * 2 + 4 <= u16::MAX,
    ensures
        area.width >= 64 ==> draw::popup_width(area) == 60,
        4 <= area.width < 64 ==> draw::popup_width(area) == area.width - 4,
        area.width < 4 ==> draw::popup_width(area) == 0,
        area.height >= fields * 2 + 8 ==> draw::form_height(area, fields) == fields * 2 + 4,
        4 <= area.height < fields * 2 + 8 ==> draw::form_height(area, fields) == area.height - 4,
        area.height < 4 ==> draw::form_height(area, fields) == 0,
{
}

/// The sign and the colour for a host tell its tunnels, taken together, apart.
pub proof fn hosts_are_told_apart(agg: HostAggState)
    ensures
        draw::agg_icon(agg).0 == '○' <==> agg is Empty || agg is AllOff,
        draw::agg_icon(agg).0 == '●' <==> agg is AllOn,
        draw::agg_icon(agg).0 == '◐' <==> agg is Mixed,
        draw::agg_icon(agg).0 == '◌' <==> agg is Transient,
        draw::agg_icon(agg).0 == '✗' <==> agg is Failed,
        draw::agg_icon(agg).1 is DarkGray <==> agg is Empty,
        draw::agg_icon(agg).1 is Gray <==> agg is AllOff,
        draw::agg_icon(agg).1 is Green <==> agg is AllOn,
        draw::agg_icon(agg).1 is Yellow <==> agg is Mixed,
        draw::agg_icon(agg).1 is Cyan <==> agg is Transient,
        draw::agg_icon(agg).1 is Red <==> agg is Failed,
{
}

/// The sign, the colour and the words for a tunnel tell its state: of one that is connected the
/// port, of one that failed the reason.
pub proof fn tunnels_are_told_apart(state: ConnStateView)
    ensures
        ({
            let (icon, color, words) = draw::state_icon(state);
            &&& icon == '○' <==> state is Disconnected
            &&& icon == '●' <==> state is Connected
            &&& icon == '◌' <==> state is Connecting || state is Disconnecting
            &&& icon == '✗' <==> state is Failed
            &&& color is Gray <==> state is Disconnected
            &&& color is Green <==> state is Connected
            &&& color is Cyan <==> state is Connecting || state is Disconnecting
            &&& color is Red <==> state is Failed
            &&& state is Disconnected ==> words.len() == 0
            &&& state is Connecting ==> words == " connecting…"@
            &&& state is Disconnecting ==> words == " disconnecting…"@
            &&& state is Connected ==> words == " → 127.0.0.1:"@ + text::decimal(
                state->local_port as nat,
            )
            &&& state is Failed ==> words == " "@ + state->reason
        }),
{
}

/// The tree has, for each row in order, a line that shows it: of a host whether it is expanded, the
/// sign for its tunnels, its name, how it is reached and how many services it has; of a service the
/// sign for its tunnel, its name, its port where it is in the configuration, and what is said of
/// its tunnel. The row under the cursor, and no other, is bold on a dark ground.
pub proof fn tree_shows_each_row(app: AppView, area: Rect, i: int)
    requires
        0 <= i < app.rows().len(),
    ensures
        ({
            let p = app.tree_panel(area);
            let rows = app.rows();
            let item = p.body->Items_0[i];
            let line = item.line;
            let dark = Style { fg: Some(Color::DarkGray), bg: None, bold: false };
            let plain = Style { fg: None, bg: None, bold: false };
            &&& p.area == area && !p.clear && p.title == Some("tunnels"@) && p.wrap is None
            &&& p.body is Items
            &&& p.body->Items_0.len() == rows.len()
            &&& item.style == if app.selected(rows) == Some(i) {
                Style { fg: None, bg: Some(Color::DarkGray), bold: true }
            } else {
                plain
            }
            &&& line.len() == 5
            &&& line[1].text.len() == 1
            &&& line[0].style == plain && line[2].style == plain && line[3].style == dark
            &&& rows[i] matches RowView::Host { name, ssh, svc_count, expanded } ==> {
                let agg = match app.cfg.find_host(name) {
                    Some(k) => app.mgr.host_aggregate(name, app.cfg.hosts[k].services),
                    None => HostAggState::Empty,
                };
                &&& expanded ==> line[0].text == "▾ "@
                &&& !expanded ==> line[0].text == "▸ "@
                &&& line[1].text[0] == draw::agg_icon(agg).0
                &&& line[1].style == (Style {
                    fg: Some(draw::agg_icon(agg).1),
                    bg: None,
                    bold: false,
                })
                &&& line[2].text == "  "@ + name + "  "@
                &&& line[3].text == "["@ + ssh + "]"@
                &&& line[4].text == "  ("@ + text::decimal(svc_count as nat) + ")"@
                &&& line[4].style == dark
            }
            &&& rows[i] matches RowView::Service { host, svc_name } ==> {
                let id = tunnel::tunnel_id(host, svc_name);
                let state = if app.mgr.states.contains_key(id) {
                    app.mgr.states[id]
                } else {
                    ConnStateView::Disconnected
                };
                &&& line[0].text == "    "@
                &&& line[1].text[0] == draw::state_icon(state).0
                &&& line[1].style == (Style {
                    fg: Some(draw::state_icon(state).1),
                    bg: None,
                    bold: false,
                })
                &&& line[2].text == "  "@ + svc_name
                &&& app.cfg.lookup(host, svc_name) matches Some(q) ==> line[3].text == " :"@
                    + text::decimal(q.1.port as nat)
                &&& app.cfg.lookup(host, svc_name) is None ==> line[3].text.len() == 0
                &&& line[4].text == draw::state_icon(state).2
                &&& line[4].style == (Style { fg: Some(Color::Yellow), bg: None, bold: false })
            }
        }),
{
}

/// The panel of the log shows the last lines of the log in their order, as many as there is room
/// for inside the border, each with its time, a tag for its level, its tunnel and its text.
pub proof fn log_shows_the_last_lines(app: AppView, area: Rect, k: int)
    requires
        0 <= k < app.log_panel(area).body->Lines_0.len(),
    ensures
        ({
            let p = app.log_panel(area);
            let shown = p.body->Lines_0;
            let logs = app.mgr.logs;
            let room = if area.height >= 2 {
                area.height - 2
            } else {
                0
            };
            let e = logs[logs.len() - shown.len() + k];
            let line = shown[k];
            let dark = Style { fg: Some(Color::DarkGray), bg: None, bold: false };
            &&& p.area == area && !p.clear && p.title == Some("logs (L to hide)"@)
            &&& p.wrap == Some(false)
            &&& shown.len() == if logs.len() <= room {
                logs.len() as int
            } else {
                room
            }
            &&& line.len() == 6
            &&& line[0].text == e.timestamp && line[0].style == dark
            &&& line[1].text == " "@ && line[3].text == " "@
            &&& line[2].text == match e.level {
                LogLevel::Info => "INFO"@,
                LogLevel::Warn => "WARN"@,
                LogLevel::Error => "ERR "@,
            }
            &&& line[2].style.fg == match e.level {
                LogLevel::Info => Some(Color::Green),
                LogLevel::Warn => Some(Color::Yellow),
                LogLevel::Error => Some(Color::Red),
            }
            &&& line[4].text == e.id + " "@ && line[4].style == dark
            &&& line[5].text == e.line
            &&& line[5].style.fg == Some(
                if e.level is Error {
                    Color::Red
                } else {
                    Color::White
                },
            )
        }),
{
}

/// Without room or without lines the panel of the log is empty, and only then.
pub proof fn log_is_shown_where_there_is_room(app: AppView, area: Rect)
    ensures
        app.log_panel(area).body is Lines,
        app.log_panel(area).body->Lines_0.len() == 0 <==> app.mgr.logs.len() == 0 || area.height
            <= 2,
{
}

/// The bottom line says the last thing that the user was told, as it is, or else which keys there
/// are, in white on blue.
pub proof fn bottom_line_says_the_last_thing(app: AppView, area: Rect)
    ensures
        ({
            let p = app.status_panel(area);
            let span = p.body->Lines_0[0][0];
            &&& p.area == area && !p.clear && p.title is None && p.wrap is None
            &&& p.body is Lines && p.body->Lines_0.len() == 1 && p.body->Lines_0[0].len() == 1
            &&& app.status matches Some(s) ==> span.text == s
            &&& app.status is None ==> span.text
                == "q quit  ? help  a add  e edit  d delete  c toggle  Enter expand/toggle  o open  L logs  r reload"@
            &&& span.style == (Style {
                fg: Some(Color::White),
                bg: Some(Color::Blue),
                bold: false,
            })
        }),
{
}

proof fn lemma_field_lines(f: FormView, n: int, i: int)
    requires
        0 <= i < n,
    ensures
        f.field_lines(n).len() == 2 * n,
        f.field_lines(n)[2 * i] == f.label_line(i),
        f.field_lines(n)[2 * i + 1] == f.value_line(i),
    decreases n,
{
    if n > 1 {
        lemma_field_lines(
            f,
            n - 1,
            if i < n - 1 {
                i
            } else {
                0
            },
        );
    } else {
        assert(f.field_lines(0).len() == 0);
    }
}

/// A form is shown in the middle of the terminal, with two lines for each field in order: its
/// label, and its value, with a cursor behind it where it has the focus, and with its hint in place
/// of an empty value where it has not. Below stands which keys there are.
pub proof fn form_shows_each_field(f: FormView, area: Rect, i: int)
    requires
        0 <= i < f.fields.len(),
    ensures
        ({
            let p = f.panel(area);
            let lines = p.body->Lines_0;
            let n = f.fields.len() as int;
            let focused = i == f.focus;
            let label = lines[2 * i][0];
            let value = lines[2 * i + 1][1];
            &&& p.area == draw::middle_of(
                area,
                draw::popup_width(area),
                draw::form_height(area, f.fields.len()),
            )
            &&& p.clear && p.title == Some(f.title) && p.wrap is None
            &&& p.body is Lines && lines.len() == 2 * n + 2
            &&& lines[2 * i].len() == 1 && lines[2 * i + 1].len() == 2
            &&& label.text == f.fields[i].label
            &&& label.style == if focused {
                Style { fg: Some(Color::Yellow), bg: None, bold: true }
            } else {
                Style { fg: Some(Color::Gray), bg: None, bold: false }
            }
            &&& lines[2 * i + 1][0].text == "  "@
            &&& focused ==> value.text == f.fields[i].value + "_"@ && value.style == (Style {
                fg: Some(Color::White),
                bg: Some(Color::DarkGray),
                bold: false,
            })
            &&& !focused && f.fields[i].value.len() == 0 ==> value.text
                == f.fields[i].placeholder && value.style == (Style {
                fg: Some(Color::DarkGray),
                bg: None,
                bold: false,
            })
            &&& !focused && f.fields[i].value.len() > 0 ==> value.text == f.fields[i].value
                && value.style == (Style { fg: None, bg: None, bold: false })
            &&& lines[2 * n].len() == 0
            &&& lines[2 * n + 1].len() == 1
            &&& lines[2 * n + 1][0].text == "Tab/↑↓ field  Enter submit  Esc cancel"@
        }),
{
    lemma_field_lines(f, f.fields.len() as int, i);
}

/// A question, an error and the help are shown in the middle of the terminal, on cleared ground
/// and under their titles: the question with its words, the error with its words and what to do.
pub proof fn questions_and_errors_are_shown(c: ConfirmView, e: Seq<char>, area: Rect)
    ensures
        ({
            let p = c.panel(area);
            &&& p.area == draw::middle_of(area, draw::popup_width(area), 5)
            &&& p.clear && p.title == Some("confirm"@) && p.wrap == Some(true)
            &&& p.body == BodyView::Text(c.message)
        }),
        ({
            let p = draw::error_panel(e, area);
            let lines = p.body->Lines_0;
            &&& p.area == draw::middle_of(area, draw::popup_width(area), 6)
            &&& p.clear && p.title == Some("error"@) && p.wrap == Some(false)
            &&& p.body is Lines && lines.len() == 3
            &&& lines[0].len() == 1 && lines[0][0].text == e && lines[0][0].style.fg == Some(
                Color::Red,
            )
            &&& lines[1].len() == 0
            &&& lines[2].len() == 1 && lines[2][0].text == "press any key"@
        }),
        ({
            let p = draw::help_panel(area);
            &&& p.area == draw::middle_of(area, draw::popup_width(area), 18)
            &&& p.clear && p.title == Some("help"@) && p.wrap is None
            &&& p.body is Lines && p.body->Lines_0.len() == 17
        }),
{
}

/// The panels are painted in this order: the tree in the first row, the log in the second exactly
/// where it is shown, the bottom line in the third; then the form, the question or the error that
/// is open, over the whole terminal; and the help last, exactly where it is shown.
pub proof fn panels_lie_over_each_other(app: AppView, size: Rect, rows: Seq<Rect>)
    ensures
        ({
            let base = if app.show_logs {
                seq![app.tree_panel(rows[0]), app.log_panel(rows[1]), app.status_panel(rows[2])]
            } else {
                seq![app.tree_panel(rows[0]), app.status_panel(rows[2])]
            };
            let over = match app.modal {
                ModalView::Form(f) => seq![f.panel(size)],
                ModalView::Confirm(c) => seq![c.panel(size)],
                ModalView::Error(e) => seq![draw::error_panel(e, size)],
                ModalView::Closed => Seq::<PanelView>::empty(),
            };
            let help = if app.show_help {
                seq![draw::help_panel(size)]
            } else {
                Seq::<PanelView>::empty()
            };
            app.drawn(size, rows) == base + over + help
        }),
        draw::row_sizes(true) == seq![
            RowSize::Percentage(60),
            RowSize::Min(5),
            RowSize::Length(1),
        ],
        draw::row_sizes(false) == seq![
            RowSize::Percentage(100),
            RowSize::Length(0),
            RowSize::Length(1),
        ],
{
    let base = if app.show_logs {
        seq![app.tree_panel(rows[0]), app.log_panel(rows[1]), app.status_panel(rows[2])]
    } else {
        seq![app.tree_panel(rows[0]), app.status_panel(rows[2])]
    };
    let over = match app.modal {
        ModalView::Form(f) => seq![f.panel(size)],
        ModalView::Confirm(c) => seq![c.panel(size)],
        ModalView::Error(e) => seq![draw::error_panel(e, size)],
        ModalView::Closed => Seq::<PanelView>::empty(),
    };
    let help = if app.show_help {
        seq![draw::help_panel(size)]
    } else {
        Seq::<PanelView>::empty()
    };
    assert(app.drawn(size, rows) =~= base + over + help);
}

/// The help names every key, group by group, with an empty line between the groups.
#[verifier::rlimit(40)]
pub proof fn help_names_every_key(area: Rect)
    ensures
        ({
            let lines = draw::help_panel(area).body->Lines_0;
            &&& lines.len() == 17
            &&& lines[0].len() == 1 && lines[0][0].text == "Movement"@
            &&& lines[1].len() == 1 && lines[1][0].text == "  j/k or ↓/↑    move selection"@
            &&& lines[2].len() == 1 && lines[2][0].text == "  h/l or ←/→    collapse/expand host"@
            &&& lines[3].len() == 0
            &&& lines[4].len() == 1 && lines[4][0].text == "Tunnels"@
            &&& lines[5].len() == 1 && lines[5][0].text == "  c             toggle connection (host = cascade)"@
            &&& lines[6].len() == 1 && lines[6][0].text == "  Enter         host: expand/collapse  service: toggle conn"@
            &&& lines[7].len() == 1 && lines[7][0].text == "  o             open service in browser (connects if needed)"@
            &&& lines[8].len() == 0
            &&& lines[9].len() == 1 && lines[9][0].text == "Edit"@
            &&& lines[10].len() == 1 && lines[10][0].text == "  a             add (service to current host)"@
            &&& lines[11].len() == 1 && lines[11][0].text == "  A             add host"@
            &&& lines[12].len() == 1 && lines[12][0].text == "  e             edit selected"@
            &&& lines[13].len() == 1 && lines[13][0].text == "  d             delete selected"@
            &&& lines[14].len() == 0
            &&& lines[15].len() == 1 && lines[15][0].text == "Misc"@
            &&& lines[16].len() == 1 && lines[16][0].text == "  L  logs   r  reload   q  quit   ?  this help"@
        }),
{
    reveal_strlit("");
    reveal_strlit("Movement");
    reveal_strlit("  j/k or ↓/↑    move selection");
    reveal_strlit("  h/l or ←/→    collapse/expand host");
    reveal_strlit("Tunnels");
    reveal_strlit("  c             toggle connection (host = cascade)");
    reveal_strlit("  Enter         host: expand/collapse  service: toggle conn");
    reveal_strlit("  o             open service in browser (connects if needed)");
    reveal_strlit("Edit");
    reveal_strlit("  a             add (service to current host)");
    reveal_strlit("  A             add host");
    reveal_strlit("  e             edit selected");
    reveal_strlit("  d             delete selected");
    reveal_strlit("Misc");
    reveal_strlit("  L  logs   r  reload   q  quit   ?  this help");
}

} // verus!
