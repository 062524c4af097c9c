//! What is shown on the terminal: panels, the lines in them, and where they lie.
use vstd::prelude::*;

use crate::manager::{ConnState, ConnStateView, HostAggState, LogEntry, LogEntryView, LogLevel};
use crate::seqs;
use crate::text;
use crate::tunnel;
use crate::tunnel::make_id;
use crate::ui::{
    App, AppView, ConfirmModal, ConfirmView, FormModal, FormView, Modal, ModalView, Row, RowView,
};

verus! {

broadcast use crate::seqs::group_views;

/// A part of the terminal.
#[derive(Debug, Clone, Copy, PartialEq, Eq, Structural)]
pub struct Rect {
    pub x: u16,
    pub y: u16,
    pub width: u16,
    pub height: u16,
}

#[derive(Debug, Clone, Copy, PartialEq, Eq, Structural)]
pub enum Color {
    Red,
    Green,
    Yellow,
    Blue,
    Cyan,
    Gray,
    DarkGray,
    White,
}

/// How text looks: its colour and the colour behind it, where they are set, and whether it is
/// bold.
#[derive(Debug, Clone, Copy, PartialEq, Eq)]
pub struct Style {
    pub fg: Option<Color>,
    pub bg: Option<Color>,
    pub bold: bool,
}

/// A piece of text that looks the same throughout.
#[derive(Debug)]
pub struct Span {
    pub text: String,
    pub style: Style,
}

/// A line of text.
#[derive(Debug)]
pub struct Line {
    pub spans: Vec<Span>,
}

/// A line of a list, and how the whole line looks.
#[derive(Debug)]
pub struct Item {
    pub line: Line,
    pub style: Style,
}

/// What a panel holds.
#[derive(Debug)]
pub enum Body {
    /// A list of lines.
    Items(Vec<Item>),
    /// A paragraph of lines.
    Lines(Vec<Line>),
    /// A paragraph of plain text.
    Text(String),
}

/// A panel, to be painted over what lies below it.
#[derive(Debug)]
pub struct Panel {
    pub area: Rect,
    /// Whether the area is cleared first.
    pub clear: bool,
    /// The title in the border; a panel without one has no border.
    pub title: Option<String>,
    pub body: Body,
    /// Whether long lines are wrapped, and whether they then lose the space in front.
    pub wrap: Option<bool>,
}

pub struct SpanView {
    pub text: Seq<char>,
    pub style: Style,
}

pub struct ItemView {
    pub line: Seq<SpanView>,
    pub style: Style,
}

pub enum BodyView {
    Items(Seq<ItemView>),
    Lines(Seq<Seq<SpanView>>),
    Text(Seq<char>),
}

pub struct PanelView {
    pub area: Rect,
    pub clear: bool,
    pub title: Option<Seq<char>>,
    pub body: BodyView,
    pub wrap: Option<bool>,
}

impl View for Span {
    type V = SpanView;

    open spec fn view(&self) -> SpanView {
        SpanView { text: self.text@, style: self.style }
    }
}

impl View for Line {
    type V = Seq<SpanView>;

    open spec fn view(&self) -> Seq<SpanView> {
        seqs::views(self.spans@)
    }
}

impl View for Item {
    type V = ItemView;

    open spec fn view(&self) -> ItemView {
        ItemView { line: self.line@, style: self.style }
    }
}

impl View for Body {
    type V = BodyView;

    open spec fn view(&self) -> BodyView {
        match self {
            Body::Items(items) => BodyView::Items(seqs::views(items@)),
            Body::Lines(lines) => BodyView::Lines(seqs::views(lines@)),
            Body::Text(text) => BodyView::Text(text@),
        }
    }
}

impl View for Panel {
    type V = PanelView;

    open spec fn view(&self) -> PanelView {
        PanelView {
            area: self.area,
            clear: self.clear,
            title: crate::ui::text_in(self.title),
            body: self.body@,
            wrap: self.wrap,
        }
    }
}

impl Rect {
    /// Whether the far edges of the area can be written down too.
    pub open spec fn wf(self) -> bool {
        self.x + self.width <= u16::MAX && self.y + self.height <= u16::MAX
    }

    /// Whether the area lies inside `outer`.
    pub open spec fn inside(self, outer: Rect) -> bool {
        &&& outer.x <= self.x && self.x + self.width <= outer.x + outer.width
        &&& outer.y <= self.y && self.y + self.height <= outer.y + outer.height
    }
}

impl Style {
    pub open spec fn plain() -> Style {
        Style { fg: None, bg: None, bold: false }
    }

    pub open spec fn tinted(c: Color) -> Style {
        Style { fg: Some(c), bg: None, bold: false }
    }

    /// The style that sets nothing.
    pub fn none_set() -> (r: Style)
        ensures
            r == Style::plain(),
    {
        Style { fg: None, bg: None, bold: false }
    }

    /// The style that sets the colour of the text.
    pub fn fg(c: Color) -> (r: Style)
        ensures
            r == Style::tinted(c),
    {
        Style { fg: Some(c), bg: None, bold: false }
    }
}

impl SpanView {
    pub open spec fn raw(text: Seq<char>) -> SpanView {
        SpanView { text, style: Style::plain() }
    }

    pub open spec fn styled(text: Seq<char>, style: Style) -> SpanView {
        SpanView { text, style }
    }
}

impl Span {
    /// Text as it comes.
    pub fn raw(text: String) -> (r: Span)
        ensures
            r@ == SpanView::raw(text@),
    {
        Span { text, style: Style::none_set() }
    }

    /// Text in a style.
    pub fn styled(text: String, style: Style) -> (r: Span)
        ensures
            r@ == SpanView::styled(text@, style),
    {
        Span { text, style }
    }
}

impl Line {
    fn of(span: Span) -> (r: Line)
        ensures
            r@ == seq![span@],
    {
        let mut spans: Vec<Span> = Vec::new();
        spans.push(span);
        assert(seqs::views(spans@) =~= seq![span@]);
        Line { spans }
    }
}

fn letter(c: char) -> (r: String)
    ensures
        r@ == seq![c],
{
    let mut s = String::new();
    s.push(c);
    assert(s@ =~= seq![c]);
    s
}

/// The sign and the colour for the tunnels of a host, taken together.
pub open spec fn agg_icon(agg: HostAggState) -> (char, Color) {
    match agg {
        HostAggState::Empty => ('○', Color::DarkGray),
        HostAggState::AllOff => ('○', Color::Gray),
        HostAggState::AllOn => ('●', Color::Green),
        HostAggState::Mixed => ('◐', Color::Yellow),
        HostAggState::Transient => ('◌', Color::Cyan),
        HostAggState::Failed => ('✗', Color::Red),
    }
}

/// The sign and the colour for the tunnels of a host, taken together.
pub fn host_agg_icon(agg: HostAggState) -> (r: (char, Color))
    ensures
        r == agg_icon(agg),
{
    match agg {
        HostAggState::Empty => ('○', Color::DarkGray),
        HostAggState::AllOff => ('○', Color::Gray),
        HostAggState::AllOn => ('●', Color::Green),
        HostAggState::Mixed => ('◐', Color::Yellow),
        HostAggState::Transient => ('◌', Color::Cyan),
        HostAggState::Failed => ('✗', Color::Red),
    }
}

/// The sign and the colour for a tunnel, and what is said of it.
pub open spec fn state_icon(state: ConnStateView) -> (char, Color, Seq<char>) {
    match state {
        ConnStateView::Disconnected => ('○', Color::Gray, Seq::empty()),
        ConnStateView::Connecting => ('◌', Color::Cyan, " connecting…"@),
        ConnStateView::Connected { local_port } => (
            '●',
            Color::Green,
            " → 127.0.0.1:"@ + text::decimal(local_port as nat),
        ),
        ConnStateView::Disconnecting => ('◌', Color::Cyan, " disconnecting…"@),
        ConnStateView::Failed { reason } => ('✗', Color::Red, " "@ + reason),
    }
}

/// The sign and the colour for a tunnel, and what is said of it.
pub fn service_icon(state: &ConnState) -> (r: (char, Color, String))
    ensures
        (r.0, r.1, r.2@) == state_icon(state@),
{
    match state {
        ConnState::Disconnected => ('○', Color::Gray, String::new()),
        ConnState::Connecting => ('◌', Color::Cyan, " connecting…".to_string()),
        ConnState::Connected { local_port } => {
            let port = text::decimal_text(*local_port as usize);
            ('●', Color::Green, text::cat2(" → 127.0.0.1:", port.as_str()))
        },
        ConnState::Disconnecting => ('◌', Color::Cyan, " disconnecting…".to_string()),
        ConnState::Failed { reason } => ('✗', Color::Red, text::cat2(" ", reason.as_str())),
    }
}

/// How a line of the tree looks as a whole.
pub open spec fn row_style(selected: bool) -> Style {
    if selected {
        Style { fg: None, bg: Some(Color::DarkGray), bold: true }
    } else {
        Style::plain()
    }
}

impl AppView {
    /// The tunnels of the host called `name`, taken together.
    pub open spec fn host_state(self, name: Seq<char>) -> HostAggState {
        match self.cfg.find_host(name) {
            Some(i) => self.mgr.host_aggregate(name, self.cfg.hosts[i].services),
            None => HostAggState::Empty,
        }
    }

    /// What a row of the tree looks like.
    pub open spec fn row_item(self, row: RowView, selected: bool) -> ItemView {
        ItemView {
            line: match row {
                RowView::Host { name, ssh, svc_count, expanded } => {
                    let (icon, color) = agg_icon(self.host_state(name));
                    seq![
                        SpanView::raw(
                            if expanded {
                                "▾ "@
                            } else {
                                "▸ "@
                            },
                        ),
                        SpanView::styled(seq![icon], Style::tinted(color)),
                        SpanView::raw("  "@ + name + "  "@),
                        SpanView::styled("["@ + ssh + "]"@, Style::tinted(Color::DarkGray)),
                        SpanView::styled(
                            "  ("@ + text::decimal(svc_count as nat) + ")"@,
                            Style::tinted(Color::DarkGray),
                        ),
                    ]
                },
                RowView::Service { host, svc_name } => {
                    let (icon, color, extra) = state_icon(
                        self.mgr.state_of(tunnel::tunnel_id(host, svc_name)),
                    );
                    seq![
                        SpanView::raw("    "@),
                        SpanView::styled(seq![icon], Style::tinted(color)),
                        SpanView::raw("  "@ + svc_name),
                        SpanView::styled(
                            match self.cfg.lookup(host, svc_name) {
                                Some(p) => " :"@ + text::decimal(p.1.port as nat),
                                None => Seq::empty(),
                            },
                            Style::tinted(Color::DarkGray),
                        ),
                        SpanView::styled(extra, Style::tinted(Color::Yellow)),
                    ]
                },
            },
            style: row_style(selected),
        }
    }

    /// The panel with the tree: one line for each row, the selected one marked.
    pub open spec fn tree_panel(self, area: Rect) -> PanelView {
        let rows = self.rows();
        PanelView {
            area,
            clear: false,
            title: Some("tunnels"@),
            body: BodyView::Items(
                Seq::new(
                    rows.len(),
                    |i: int| self.row_item(rows[i], self.selected(rows) == Some(i)),
                ),
            ),
            wrap: None,
        }
    }
}

/// What a row of the tree looks like.
pub fn render_row(app: &App, row: &Row, selected: bool) -> (r: Item)
    ensures
        r@ == app@.row_item(row@, selected),
{
    let style = if selected {
        Style { fg: None, bg: Some(Color::DarkGray), bold: true }
    } else {
        Style::none_set()
    };
    let mut spans: Vec<Span> = Vec::new();
    match row {
        Row::Host { name, ssh, svc_count, expanded } => {
            let agg = match app.cfg.find_host(name.as_str()) {
                Some(i) => {
                    assert(app.cfg.hosts@[i as int]@ == app@.cfg.hosts[i as int]);
                    app.mgr.host_aggregate(name.as_str(), app.cfg.hosts[i].services.as_slice())
                },
                None => HostAggState::Empty,
            };
            let (icon, color) = host_agg_icon(agg);
            let arrow = if *expanded {
                "▾ "
            } else {
                "▸ "
            };
            let count = text::decimal_text(*svc_count);
            spans.push(Span::raw(arrow.to_string()));
            spans.push(Span::styled(letter(icon), Style::fg(color)));
            spans.push(Span::raw(text::cat3("  ", name.as_str(), "  ")));
            spans.push(
                Span::styled(text::cat3("[", ssh.as_str(), "]"), Style::fg(Color::DarkGray)),
            );
            spans.push(
                Span::styled(text::cat3("  (", count.as_str(), ")"), Style::fg(Color::DarkGray)),
            );
        },
        Row::Service { host, svc_name } => {
            let id = make_id(host.as_str(), svc_name.as_str());
            let state = app.mgr.state_of(&id);
            let (icon, color, extra) = service_icon(&state);
            let port_info = match app.cfg.lookup(host.as_str(), svc_name.as_str()) {
                Some(p) => {
                    let port = text::decimal_text(p.1.port as usize);
                    text::cat2(" :", port.as_str())
                },
                None => String::new(),
            };
            spans.push(Span::raw("    ".to_string()));
            spans.push(Span::styled(letter(icon), Style::fg(color)));
            spans.push(Span::raw(text::cat2("  ", svc_name.as_str())));
            spans.push(Span::styled(port_info, Style::fg(Color::DarkGray)));
            spans.push(Span::styled(extra, Style::fg(Color::Yellow)));
        },
    }
    assert(seqs::views(spans@) =~= app@.row_item(row@, selected).line);
    Item { line: Line { spans }, style }
}

/// The panel with the tree.
pub fn draw_tree(app: &App, area: Rect) -> (r: Panel)
    ensures
        r@ == app@.tree_panel(area),
{
    let rows = app.flat_rows();
    let ghost all = app@.rows();
    let selected_idx = app.selected_index(rows.as_slice());
    let mut items: Vec<Item> = Vec::new();
    let mut i: usize = 0;
    while i < rows.len()
        invariant
            i <= rows@.len(),
            all == seqs::views(rows@),
            match selected_idx {
                Some(k) => app@.selected(all) == Some(k as int),
                None => app@.selected(all) is None,
            },
            items@.len() == i,
            forall|k: int|
                0 <= k < i ==> (#[trigger] items@[k])@ == app@.row_item(
                    all[k],
                    app@.selected(all) == Some(k),
                ),
        decreases rows@.len() - i,
    {
        let selected = match selected_idx {
            Some(k) => k == i,
            None => false,
        };
        assert(all[i as int] == rows@[i as int]@);
        items.push(render_row(app, &rows[i], selected));
        i = i + 1;
    }
    proof {
        let want = Seq::new(
            all.len(),
            |i: int| app@.row_item(all[i], app@.selected(all) == Some(i)),
        );
        assert(seqs::views(items@) =~= want);
    }
    Panel {
        area,
        clear: false,
        title: Some("tunnels".to_string()),
        body: Body::Items(items),
        wrap: None,
    }
}

/// What a line of the log looks like.
pub open spec fn log_line(e: LogEntryView) -> Seq<SpanView> {
    let (tag, tag_color) = match e.level {
        LogLevel::Info => ("INFO"@, Color::Green),
        LogLevel::Warn => ("WARN"@, Color::Yellow),
        LogLevel::Error => ("ERR "@, Color::Red),
    };
    let line_color = match e.level {
        LogLevel::Error => Color::Red,
        _ => Color::White,
    };
    seq![
        SpanView::styled(e.timestamp, Style::tinted(Color::DarkGray)),
        SpanView::raw(" "@),
        SpanView::styled(tag, Style::tinted(tag_color)),
        SpanView::raw(" "@),
        SpanView::styled(e.id + " "@, Style::tinted(Color::DarkGray)),
        SpanView::styled(e.line, Style::tinted(line_color)),
    ]
}

/// How many lines a panel of height `height` has inside its border.
pub open spec fn inner_height(height: u16) -> int {
    if height >= 2 {
        height - 2
    } else {
        0
    }
}

impl AppView {
    /// The panel with the log: as many of its last lines as the panel has room for, in order.
    pub open spec fn log_panel(self, area: Rect) -> PanelView {
        PanelView {
            area,
            clear: false,
            title: Some("logs (L to hide)"@),
            body: BodyView::Lines(
                seqs::last_of(self.mgr.logs, inner_height(area.height)).map_values(
                    |e: LogEntryView| log_line(e),
                ),
            ),
            wrap: Some(false),
        }
    }

    /// The bottom line: the last thing the user was told, or which keys there are.
    pub open spec fn status_panel(self, area: Rect) -> PanelView {
        PanelView {
            area,
            clear: false,
            title: None,
            body: BodyView::Lines(
                seq![
                    seq![
                        SpanView::styled(
                            match self.status {
                                Some(s) => s,
                                None => "q quit  ? help  a add  e edit  d delete  c toggle  Enter expand/toggle  o open  L logs  r reload"@,
                            },
                            Style { fg: Some(Color::White), bg: Some(Color::Blue), bold: false },
                        ),
                    ],
                ],
            ),
            wrap: None,
        }
    }
}

fn render_log(e: &LogEntry) -> (r: Line)
    ensures
        r@ == log_line(e@),
{
    let (tag, tag_color) = match e.level {
        LogLevel::Info => ("INFO", Color::Green),
        LogLevel::Warn => ("WARN", Color::Yellow),
        LogLevel::Error => ("ERR ", Color::Red),
    };
    let line_color = match e.level {
        LogLevel::Error => Color::Red,
        _ => Color::White,
    };
    let mut spans: Vec<Span> = Vec::new();
    spans.push(Span::styled(e.timestamp.clone(), Style::fg(Color::DarkGray)));
    spans.push(Span::raw(" ".to_string()));
    spans.push(Span::styled(tag.to_string(), Style::fg(tag_color)));
    spans.push(Span::raw(" ".to_string()));
    spans.push(Span::styled(text::cat2(e.id.as_str(), " "), Style::fg(Color::DarkGray)));
    spans.push(Span::styled(e.line.clone(), Style::fg(line_color)));
    assert(seqs::views(spans@) =~= log_line(e@));
    Line { spans }
}

/// The panel with the log.
pub fn draw_logs(app: &App, area: Rect) -> (r: Panel)
    ensures
        r@ == app@.log_panel(area),
{
    let room: usize = if area.height >= 2 {
        (area.height - 2) as usize
    } else {
        0
    };
    let total: usize = app.mgr.logs.len();
    let first: usize = if total > room {
        total - room
    } else {
        0
    };
    let ghost logs = app@.mgr.logs;
    let mut lines: Vec<Line> = Vec::new();
    let mut i: usize = first;
    while i < app.mgr.logs.len()
        invariant
            first <= i <= app.mgr.logs@.len(),
            logs == seqs::views(app.mgr.logs@),
            lines@.len() == i - first,
            forall|k: int|
                0 <= k < lines@.len() ==> (#[trigger] lines@[k])@ == log_line(logs[first + k]),
        decreases app.mgr.logs@.len() - i,
    {
        assert(logs[i as int] == app.mgr.logs@[i as int]@);
        lines.push(render_log(&app.mgr.logs[i]));
        i = i + 1;
    }
    proof {
        let want = seqs::last_of(logs, room as int).map_values(|e: LogEntryView| log_line(e));
        assert(seqs::views(lines@) =~= want);
    }
    Panel {
        area,
        clear: false,
        title: Some("logs (L to hide)".to_string()),
        body: Body::Lines(lines),
        wrap: Some(false),
    }
}

/// The bottom line.
pub fn draw_status(app: &App, area: Rect) -> (r: Panel)
    ensures
        r@ == app@.status_panel(area),
{
    let txt = match &app.status {
        Some(s) => s.clone(),
        None => "q quit  ? help  a add  e edit  d delete  c toggle  Enter expand/toggle  o open  L logs  r reload".to_string(),
    };
    let mut lines: Vec<Line> = Vec::new();
    lines.push(
        Line::of(
            Span::styled(
                txt,
                Style { fg: Some(Color::White), bg: Some(Color::Blue), bold: false },
            ),
        ),
    );
    let body = Body::Lines(lines);
    assert(body@->Lines_0 =~= app@.status_panel(area).body->Lines_0);
    Panel { area, clear: false, title: None, body, wrap: None }
}

/// The smaller of `a` and `b`.
pub open spec fn least(a: u16, b: u16) -> u16 {
    if a <= b {
        a
    } else {
        b
    }
}

/// What `b` leaves of `a`.
pub open spec fn left_of(a: u16, b: u16) -> u16 {
    if a >= b {
        (a - b) as u16
    } else {
        0
    }
}

/// An area of width `w` and height `h` in the middle of `area`, cut to what `area` has room for.
pub open spec fn middle_of(area: Rect, w: u16, h: u16) -> Rect {
    Rect {
        x: (area.x + left_of(area.width, w) / 2) as u16,
        y: (area.y + left_of(area.height, h) / 2) as u16,
        width: least(w, area.width),
        height: least(h, area.height),
    }
}

/// How wide a panel over the tree is.
pub open spec fn popup_width(area: Rect) -> u16 {
    least(60, left_of(area.width, 4))
}

/// How high the panel of a form with `fields` fields is.
pub open spec fn form_height(area: Rect, fields: nat) -> u16 {
    least(((fields as u16) * 2 + 4) as u16, left_of(area.height, 4))
}

fn smaller(a: u16, b: u16) -> (r: u16)
    ensures
        r == least(a, b),
{
    if a <= b {
        a
    } else {
        b
    }
}

fn rest(a: u16, b: u16) -> (r: u16)
    ensures
        r == left_of(a, b),
{
    if a >= b {
        a - b
    } else {
        0
    }
}

/// An area of width `w` and height `h` in the middle of `area`, cut to what `area` has room for.
pub fn centered(area: Rect, w: u16, h: u16) -> (r: Rect)
    requires
        area.x + left_of(area.width, w) / 2 <= u16::MAX,
        area.y + left_of(area.height, h) / 2 <= u16::MAX,
    ensures
        r == middle_of(area, w, h),
{
    Rect {
        x: area.x + rest(area.width, w) / 2,
        y: area.y + rest(area.height, h) / 2,
        width: smaller(w, area.width),
        height: smaller(h, area.height),
    }
}

/// What is centered in an area lies inside it.
pub proof fn centered_lies_inside(area: Rect, w: u16, h: u16)
    requires
        area.wf(),
    ensures
        middle_of(area, w, h).inside(area),
        middle_of(area, w, h).wf(),
{
}

impl FormView {
    /// The line with the label of field `i`.
    pub open spec fn label_line(self, i: int) -> Seq<SpanView> {
        seq![
            SpanView::styled(
                self.fields[i].label,
                if i == self.focus {
                    Style { fg: Some(Color::Yellow), bg: None, bold: true }
                } else {
                    Style::tinted(Color::Gray)
                },
            ),
        ]
    }

    /// The line with the value of field `i`: with a cursor where the field has the focus, and
    /// with the hint in place of an empty value where it has not.
    pub open spec fn value_line(self, i: int) -> Seq<SpanView> {
        let f = self.fields[i];
        seq![
            SpanView::raw("  "@),
            if i == self.focus {
                SpanView::styled(
                    f.value + "_"@,
                    Style { fg: Some(Color::White), bg: Some(Color::DarkGray), bold: false },
                )
            } else if f.value.len() == 0 {
                SpanView::styled(f.placeholder, Style::tinted(Color::DarkGray))
            } else {
                SpanView::raw(f.value)
            },
        ]
    }

    /// The lines of the fields before field `n`.
    pub open spec fn field_lines(self, n: int) -> Seq<Seq<SpanView>>
        decreases n,
    {
        if n <= 0 {
            Seq::empty()
        } else {
            self.field_lines(n - 1).push(self.label_line(n - 1)).push(self.value_line(n - 1))
        }
    }

    /// The panel of the form.
    pub open spec fn panel(self, area: Rect) -> PanelView {
        PanelView {
            area: middle_of(area, popup_width(area), form_height(area, self.fields.len())),
            clear: true,
            title: Some(self.title),
            body: BodyView::Lines(
                self.field_lines(self.fields.len() as int).push(Seq::empty()).push(
                    seq![
                        SpanView::styled(
                            "Tab/↑↓ field  Enter submit  Esc cancel"@,
                            Style::tinted(Color::DarkGray),
                        ),
                    ],
                ),
            ),
            wrap: None,
        }
    }
}

impl ConfirmView {
    /// The panel of the question.
    pub open spec fn panel(self, area: Rect) -> PanelView {
        PanelView {
            area: middle_of(area, popup_width(area), 5),
            clear: true,
            title: Some("confirm"@),
            body: BodyView::Text(self.message),
            wrap: Some(true),
        }
    }
}

/// The panel of an error.
pub open spec fn error_panel(msg: Seq<char>, area: Rect) -> PanelView {
    PanelView {
        area: middle_of(area, popup_width(area), 6),
        clear: true,
        title: Some("error"@),
        body: BodyView::Lines(
            seq![
                seq![SpanView::styled(msg, Style::tinted(Color::Red))],
                Seq::empty(),
                seq![SpanView::styled("press any key"@, Style::tinted(Color::DarkGray))],
            ],
        ),
        wrap: Some(false),
    }
}

/// A line of plain text; an empty text is an empty line.
pub open spec fn text_line(s: Seq<char>) -> Seq<SpanView> {
    if s.len() == 0 {
        Seq::empty()
    } else {
        seq![SpanView::raw(s)]
    }
}

/// What the help says, line by line.
pub open spec fn help_lines() -> Seq<Seq<SpanView>> {
    seq![
        text_line("Movement"@),
        text_line("  j/k or ↓/↑    move selection"@),
        text_line("  h/l or ←/→    collapse/expand host"@),
        text_line(""@),
        text_line("Tunnels"@),
        text_line("  c             toggle connection (host = cascade)"@),
        text_line("  Enter         host: expand/collapse  service: toggle conn"@),
        text_line("  o             open service in browser (connects if needed)"@),
        text_line(""@),
        text_line("Edit"@),
        text_line("  a             add (service to current host)"@),
        text_line("  A             add host"@),
        text_line("  e             edit selected"@),
        text_line("  d             delete selected"@),
        text_line(""@),
        text_line("Misc"@),
        text_line("  L  logs   r  reload   q  quit   ?  this help"@),
    ]
}

/// The panel of the help.
pub open spec fn help_panel(area: Rect) -> PanelView {
    PanelView {
        area: middle_of(area, popup_width(area), 18),
        clear: true,
        title: Some("help"@),
        body: BodyView::Lines(help_lines()),
        wrap: None,
    }
}

fn popup(area: Rect, h: u16) -> (r: Rect)
    requires
        area.wf(),
    ensures
        r == middle_of(area, popup_width(area), h),
{
    centered(area, smaller(60, rest(area.width, 4)), h)
}

/// The panel of a form.
pub fn draw_form(form: &FormModal, area: Rect) -> (r: Panel)
    requires
        area.wf(),
        (form@.fields.len() as u16) * 2 + 4 <= u16::MAX,
    ensures
        r@ == form@.panel(area),
{
    let ghost view = form@;
    let count: u16 = form.fields.len() as u16;
    let r = popup(area, smaller(count * 2 + 4, rest(area.height, 4)));
    let mut lines: Vec<Line> = Vec::new();
    let mut i: usize = 0;
    while i < form.fields.len()
        invariant
            i <= form.fields@.len(),
            view == form@,
            seqs::views(lines@) == view.field_lines(i as int),
        decreases form.fields@.len() - i,
    {
        let focused = i == form.focus;
        let field = &form.fields[i];
        assert(view.fields[i as int] == field@);
        let label_style = if focused {
            Style { fg: Some(Color::Yellow), bg: None, bold: true }
        } else {
            Style::fg(Color::Gray)
        };
        lines.push(Line::of(Span::styled(field.label.clone(), label_style)));
        let value = if focused {
            Span::styled(
                text::cat2(field.value.as_str(), "_"),
                Style { fg: Some(Color::White), bg: Some(Color::DarkGray), bold: false },
            )
        } else if field.value.as_str().is_empty() {
            Span::styled(field.placeholder.clone(), Style::fg(Color::DarkGray))
        } else {
            Span::raw(field.value.clone())
        };
        let mut spans: Vec<Span> = Vec::new();
        spans.push(Span::raw("  ".to_string()));
        spans.push(value);
        assert(seqs::views(spans@) =~= view.value_line(i as int));
        lines.push(Line { spans });
        i = i + 1;
    }
    lines.push(Line { spans: Vec::new() });
    lines.push(
        Line::of(
            Span::styled(
                "Tab/↑↓ field  Enter submit  Esc cancel".to_string(),
                Style::fg(Color::DarkGray),
            ),
        ),
    );
    Panel {
        area: r,
        clear: true,
        title: Some(form.title.clone()),
        body: Body::Lines(lines),
        wrap: None,
    }
}

/// The panel of a question.
pub fn draw_confirm(c: &ConfirmModal, area: Rect) -> (r: Panel)
    requires
        area.wf(),
    ensures
        r@ == c@.panel(area),
{
    Panel {
        area: popup(area, 5),
        clear: true,
        title: Some("confirm".to_string()),
        body: Body::Text(c.message.clone()),
        wrap: Some(true),
    }
}

/// The panel of an error.
pub fn draw_error(msg: &str, area: Rect) -> (r: Panel)
    requires
        area.wf(),
    ensures
        r@ == error_panel(msg@, area),
{
    let mut lines: Vec<Line> = Vec::new();
    lines.push(Line::of(Span::styled(msg.to_string(), Style::fg(Color::Red))));
    lines.push(Line { spans: Vec::new() });
    lines.push(
        Line::of(Span::styled("press any key".to_string(), Style::fg(Color::DarkGray))),
    );
    let body = Body::Lines(lines);
    assert(body@->Lines_0 =~= error_panel(msg@, area).body->Lines_0);
    Panel {
        area: popup(area, 6),
        clear: true,
        title: Some("error".to_string()),
        body,
        wrap: Some(false),
    }
}

fn push_text(lines: &mut Vec<Line>, s: &str)
    ensures
        seqs::views(final(lines)@) == seqs::views(old(lines)@).push(text_line(s@)),
{
    if s.is_empty() {
        lines.push(Line { spans: Vec::new() });
    } else {
        lines.push(Line::of(Span::raw(s.to_string())));
    }
}

/// The panel of the help.
#[verifier::rlimit(40)]
pub fn draw_help(area: Rect) -> (r: Panel)
    requires
        area.wf(),
    ensures
        r@ == help_panel(area),
{
    let mut lines: Vec<Line> = Vec::new();
    push_text(&mut lines, "Movement");
    push_text(&mut lines, "  j/k or ↓/↑    move selection");
    push_text(&mut lines, "  h/l or ←/→    collapse/expand host");
    push_text(&mut lines, "");
    push_text(&mut lines, "Tunnels");
    push_text(&mut lines, "  c             toggle connection (host = cascade)");
    push_text(&mut lines, "  Enter         host: expand/collapse  service: toggle conn");
    push_text(&mut lines, "  o             open service in browser (connects if needed)");
    push_text(&mut lines, "");
    push_text(&mut lines, "Edit");
    push_text(&mut lines, "  a             add (service to current host)");
    push_text(&mut lines, "  A             add host");
    push_text(&mut lines, "  e             edit selected");
    push_text(&mut lines, "  d             delete selected");
    push_text(&mut lines, "");
    push_text(&mut lines, "Misc");
    push_text(&mut lines, "  L  logs   r  reload   q  quit   ?  this help");
    assert(seqs::views(lines@) =~= help_lines());
    Panel {
        area: popup(area, 18),
        clear: true,
        title: Some("help".to_string()),
        body: Body::Lines(lines),
        wrap: None,
    }
}

/// How high a row of the terminal is to be.
#[derive(Debug, Clone, Copy, PartialEq, Eq, Structural)]
pub enum RowSize {
    /// So many hundredths of the whole.
    Percentage(u16),
    /// At least so many lines.
    Min(u16),
    /// So many lines.
    Length(u16),
}

impl RowSize {
    /// How many lines the row claims before any share of the whole is given out.
    pub open spec fn claim(self) -> int {
        match self {
            RowSize::Percentage(n) => 0,
            RowSize::Min(n) => n as int,
            RowSize::Length(n) => n as int,
        }
    }

    /// Whether a row of height `height` is as high as it is to be, as far as lines are named.
    pub open spec fn met_by(self, height: u16) -> bool {
        match self {
            RowSize::Percentage(n) => true,
            RowSize::Min(n) => height >= n,
            RowSize::Length(n) => height == n,
        }
    }
}

/// Whether `rows` is one of the ways in which `ratatui` stacks rows of `sizes` in `area`. Nothing
/// is known of it but that `split_rows` gives rows of which it holds.
pub uninterp spec fn ratatui_stacks(area: Rect, sizes: Seq<RowSize>, rows: Seq<Rect>) -> bool;

/// Whether `rows` can be rows of `sizes` in `area`: each is as wide as the area and inside it; and
/// where there are three, no two of them with a least height, and their claims fit together, each
/// is as high as it is to be.
pub open spec fn stacked(area: Rect, sizes: Seq<RowSize>, rows: Seq<Rect>) -> bool {
    &&& rows.len() == sizes.len()
    &&& forall|i: int| #![trigger rows[i]]
        0 <= i < rows.len() ==> rows[i].x == area.x && rows[i].width == area.width && rows[i].inside(
            area,
        )
    &&& sizes.len() == 3 && (forall|i: int, j: int|
        0 <= i < j < 3 ==> !((#[trigger] sizes[i]) is Min && (#[trigger] sizes[j]) is Min))
        && sizes[0].claim() + sizes[1].claim() + sizes[2].claim() <= area.height
        && area.height <= i16::MAX ==> forall|i: int| #![trigger rows[i]]
        0 <= i < 3 ==> sizes[i].met_by(rows[i].height)
}

/// Stacks rows of `sizes` in `area`, by `ratatui::layout::Layout::split`. Each row is as wide as
/// the area and lies inside it. Of three rows whose named heights fit together, and of which no
/// more than one has a least height, each has the height that it is to have. How the lines that
/// are left are shared out is up to the solver in `ratatui`, and its documentation calls it
/// indeterminate.
#[verifier::external_body]
fn split_rows(area: Rect, sizes: &[RowSize]) -> (rows: Vec<Rect>)
    requires
        area.wf(),
    ensures
        ratatui_stacks(area, sizes@, rows@),
        stacked(area, sizes@, rows@),
{
    let constraints = sizes.iter().map(|s| match s {
        RowSize::Percentage(n) => ratatui::layout::Constraint::Percentage(*n),
        RowSize::Min(n) => ratatui::layout::Constraint::Min(*n),
        RowSize::Length(n) => ratatui::layout::Constraint::Length(*n),
    });
    ratatui::layout::Layout::default()
        .direction(ratatui::layout::Direction::Vertical)
        .constraints(constraints)
        .split(ratatui::layout::Rect::new(area.x, area.y, area.width, area.height))
        .iter()
        .map(|r| Rect { x: r.x, y: r.y, width: r.width, height: r.height })
        .collect()
}

/// How high the rows for the tree, the log and the bottom line are to be.
pub open spec fn row_sizes(show_logs: bool) -> Seq<RowSize> {
    if show_logs {
        seq![RowSize::Percentage(60), RowSize::Min(5), RowSize::Length(1)]
    } else {
        seq![RowSize::Percentage(100), RowSize::Length(0), RowSize::Length(1)]
    }
}

impl AppView {
    /// What lies over the tree: a form, a question or an error, and over all of it the help.
    pub open spec fn overlays(self, size: Rect) -> Seq<PanelView> {
        let modal = match self.modal {
            ModalView::Form(f) => seq![f.panel(size)],
            ModalView::Confirm(c) => seq![c.panel(size)],
            ModalView::Error(e) => seq![error_panel(e, size)],
            ModalView::Closed => Seq::empty(),
        };
        if self.show_help {
            modal.push(help_panel(size))
        } else {
            modal
        }
    }

    /// All panels, in the order in which they are painted, where `rows` are the rows for the
    /// tree, the log and the bottom line.
    pub open spec fn drawn(self, size: Rect, rows: Seq<Rect>) -> Seq<PanelView> {
        let base = if self.show_logs {
            seq![
                self.tree_panel(rows[0]),
                self.log_panel(rows[1]),
                self.status_panel(rows[2]),
            ]
        } else {
            seq![self.tree_panel(rows[0]), self.status_panel(rows[2])]
        };
        base + self.overlays(size)
    }
}

/// All panels, in the order in which they are painted, where `rows` are the rows for the tree,
/// the log and the bottom line.
pub fn draw_in_rows(app: &App, size: Rect, rows: &[Rect]) -> (r: Vec<Panel>)
    requires
        app@.modal matches ModalView::Form(f) ==> (f.fields.len() as u16) * 2 + 4 <= u16::MAX,
        size.wf(),
        rows@.len() == 3,
    ensures
        seqs::views(r@) == app@.drawn(size, rows@),
{
    let mut out: Vec<Panel> = Vec::new();
    out.push(draw_tree(app, rows[0]));
    if app.show_logs {
        out.push(draw_logs(app, rows[1]));
    }
    out.push(draw_status(app, rows[2]));
    match &app.modal {
        Modal::Form(form) => {
            out.push(draw_form(form, size));
        },
        Modal::Confirm(c) => {
            out.push(draw_confirm(c, size));
        },
        Modal::Error(e) => {
            out.push(draw_error(e.as_str(), size));
        },
        Modal::Closed => {},
    }
    if app.show_help {
        out.push(draw_help(size));
    }
    assert(seqs::views(out@) =~= app@.drawn(size, rows@));
    out
}

/// All panels for a terminal of size `size`, in the order in which they are painted.
pub fn draw(app: &App, size: Rect) -> (r: Vec<Panel>)
    requires
        app@.modal matches ModalView::Form(f) ==> (f.fields.len() as u16) * 2 + 4 <= u16::MAX,
        size.wf(),
    ensures
        exists|rows: Seq<Rect>| #[trigger]
            ratatui_stacks(size, row_sizes(app@.show_logs), rows) && stacked(
                size,
                row_sizes(app@.show_logs),
                rows,
            ) && seqs::views(r@) == app@.drawn(size, rows),
{
    let mut sizes: Vec<RowSize> = Vec::new();
    if app.show_logs {
        sizes.push(RowSize::Percentage(60));
        sizes.push(RowSize::Min(5));
    } else {
        sizes.push(RowSize::Percentage(100));
        sizes.push(RowSize::Length(0));
    }
    sizes.push(RowSize::Length(1));
    assert(sizes@ =~= row_sizes(app@.show_logs));
    let rows = split_rows(size, sizes.as_slice());
    draw_in_rows(app, size, rows.as_slice())
}

} // verus!
