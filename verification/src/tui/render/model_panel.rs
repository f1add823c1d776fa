//! The panel on which the user picks a model.
use crate::text;
use crate::tui::line;
use crate::tui::line::Color;
use crate::tui::line::Line;
use crate::tui::line::LineView;
use crate::tui::line::Style;
use crate::tui::render::permission;
use crate::tui::state::interaction::ModelSelectionEntry;
use crate::tui::state::Rect;
use crate::types::config::ModelConfig;
use vstd::prelude::*;

verus! {

#[verifier::allow_in_spec]
pub fn bright() -> (r: Color)
    returns
        Color::Rgb(0x42, 0xd9, 0xe8),
{
    Color::Rgb(0x42, 0xd9, 0xe8)
}

/// Whether the selected entry is a model that can think.
pub open spec fn can_think(entries: Seq<ModelSelectionEntry>, selected: int) -> bool {
    0 <= selected < entries.len() && (entries[selected] matches ModelSelectionEntry::Model {
        provider_key,
        model,
    } && model.thinking)
}

pub fn has_thinking(entries: &Vec<ModelSelectionEntry>, selected: usize) -> (r: bool)
    ensures
        r == can_think(entries@, selected as int),
{
    if selected >= entries.len() {
        return false;
    }
    match &entries[selected] {
        ModelSelectionEntry::Model { provider_key: _, model } => model.thinking,
        _ => false,
    }
}

/// What a model offers.
pub open spec fn model_features(model: ModelConfig) -> Seq<Seq<char>> {
    let a = if model.limit / 1000 > 0 {
        seq![text::decimal(model.limit as int / 1000) + "K context"@]
    } else {
        Seq::empty()
    };
    if model.thinking {
        a.push("thinking"@)
    } else {
        a
    }
}

pub open spec fn model_description(model: ModelConfig) -> Seq<char> {
    text::joined(model_features(model), " · "@)
}

fn describe_model(model: &ModelConfig) -> (r: String)
    ensures
        r@ == model_description(*model),
{
    broadcast use text::lemma_views_push;

    let mut parts: Vec<String> = Vec::new();
    assert(text::views(parts@) =~= Seq::<Seq<char>>::empty());
    let k: u64 = model.limit / 1000;
    if k > 0 {
        let mut t = text::decimal_of(k);
        t.push_str("K context");
        parts.push(t);
    }
    if model.thinking {
        parts.push(text::copy("thinking"));
    }
    assert(text::views(parts@) =~= model_features(*model));
    text::join(&parts, " · ")
}

/// The name that a model goes by.
pub open spec fn model_name(model: ModelConfig) -> Seq<char> {
    match model.name {
        Some(n) => n@,
        None => model.id@,
    }
}

/// How many of the first `n` entries are models.
pub open spec fn models_among(entries: Seq<ModelSelectionEntry>, n: int) -> int
    decreases n,
{
    if n <= 0 {
        0
    } else {
        models_among(entries, n - 1) + if entries[n - 1] is Model {
            1int
        } else {
            0
        }
    }
}

/// A model on its line: its number and name, and what it offers. The active model has a check
/// mark, the selected one a pointer.
pub open spec fn model_row(
    model: ModelConfig,
    number: int,
    selected: bool,
    active: bool,
) -> LineView {
    let label = " "@ + text::decimal(number) + ". "@ + model_name(model) + if active {
        " ✔"@
    } else {
        Seq::empty()
    };
    let color = if selected {
        bright()
    } else if active {
        Color::Rgb(126, 158, 126)
    } else {
        Color::Rgb(165, 172, 182)
    };
    let style = line::colored(color);
    let head = seq![
        line::sp(
            if selected {
                " ❯ "@
            } else {
                "   "@
            },
            style,
        ),
        line::sp(
            label,
            if selected || active {
                line::bold(style)
            } else {
                style
            },
        ),
    ];
    let desc = model_description(model);
    line::of_spans(
        if desc.len() > 0 {
            head.push(line::raw("  "@)).push(line::sp(desc, style))
        } else {
            head
        },
    )
}

fn model_line(model: &ModelConfig, number: u64, selected: bool, active: bool) -> (r: Line)
    ensures
        r@ == model_row(*model, number as int, selected, active),
{
    proof {
        reveal_strlit("");
        assert(""@ =~= Seq::<char>::empty());
    }
    let mut label = text::copy(" ");
    let digits = text::decimal_of(number);
    label.push_str(digits.as_str());
    label.push_str(". ");
    label.push_str(
        match &model.name {
            Some(n) => n.as_str(),
            None => model.id.as_str(),
        },
    );
    label.push_str(
        if active {
            " ✔"
        } else {
            ""
        },
    );
    let color = if selected {
        bright()
    } else if active {
        Color::Rgb(126, 158, 126)
    } else {
        Color::Rgb(165, 172, 182)
    };
    let style = line::colored(color);
    let l = line::line2(
        line::span(
            if selected {
                " ❯ "
            } else {
                "   "
            },
            style,
        ),
        line::span_of(
            label,
            if selected || active {
                line::bold(style)
            } else {
                style
            },
        ),
    );
    let mut spans = l.spans;
    let desc = describe_model(model);
    if text::char_count(desc.as_str()) > 0 {
        line::push_span(&mut spans, line::raw_span("  "));
        line::push_span(&mut spans, line::span_of(desc, style));
    }
    line::line_of(spans)
}

/// The line of the entry `i`.
pub open spec fn entry_row(
    entries: Seq<ModelSelectionEntry>,
    i: int,
    selected: int,
    active_provider: Seq<char>,
    active_model: Seq<char>,
) -> LineView {
    match entries[i] {
        ModelSelectionEntry::ProviderHeader { name } => line::of_spans(
            seq![line::sp("  "@ + name@, line::bold(permission::gray()))],
        ),
        ModelSelectionEntry::Model { provider_key, model } => model_row(
            model,
            models_among(entries, i + 1),
            i == selected,
            provider_key@ == active_provider && model.id@ == active_model,
        ),
    }
}

/// The lines of the entries, as many as there is room for.
pub open spec fn entry_rows(
    entries: Seq<ModelSelectionEntry>,
    rows: int,
    selected: int,
    active_provider: Seq<char>,
    active_model: Seq<char>,
) -> Seq<LineView> {
    Seq::new(
        text::min_int(entries.len() as int, rows) as nat,
        |i: int| entry_row(entries, i, selected, active_provider, active_model),
    )
}

fn build_entry_rows(
    entries: &Vec<ModelSelectionEntry>,
    rows: usize,
    selected: usize,
    active_provider: &str,
    active_model: &str,
) -> (r: Vec<Line>)
    ensures
        line::lines_view(r@) == entry_rows(
            entries@,
            rows as int,
            selected as int,
            active_provider@,
            active_model@,
        ),
{
    let ghost all = entry_rows(
        entries@,
        rows as int,
        selected as int,
        active_provider@,
        active_model@,
    );
    let n: usize = text::min_usize(entries.len(), rows);
    let mut lines: Vec<Line> = Vec::new();
    let mut number: u64 = 0;
    let mut i: usize = 0;
    assert(line::lines_view(lines@) =~= all.take(0));
    while i < n
        invariant
            i <= n <= entries@.len(),
            n == all.len(),
            number <= i,
            number == models_among(entries@, i as int),
            all == entry_rows(
                entries@,
                rows as int,
                selected as int,
                active_provider@,
                active_model@,
            ),
            line::lines_view(lines@) == all.take(i as int),
        decreases n - i,
    {
        match &entries[i] {
            ModelSelectionEntry::ProviderHeader { name } => {
                let t = text::concat("  ", name.as_str());
                line::push_line(
                    &mut lines,
                    line::line1(line::span_of(t, line::bold(permission::gray()))),
                );
            },
            ModelSelectionEntry::Model { provider_key, model } => {
                number = number + 1;
                let active = text::same(provider_key.as_str(), active_provider) && text::same(
                    model.id.as_str(),
                    active_model,
                );
                line::push_line(&mut lines, model_line(model, number, i == selected, active));
            },
        }
        assert(all.take(i + 1) =~= all.take(i as int).push(all[i as int]));
        i = i + 1;
    }
    assert(all.take(i as int) =~= all);
    lines
}

/// How hard the model is to think, and how to change that.
pub open spec fn effort_line(thinking_idx: int) -> LineView {
    let (words, style) = if thinking_idx <= 0 {
        ("○ No effort"@, line::rgb(140, 145, 155))
    } else if thinking_idx == 1 {
        ("◔ Low effort"@, line::bold(line::rgb(190, 170, 140)))
    } else if thinking_idx == 2 {
        ("◑ Medium effort"@, line::bold(line::rgb(220, 185, 145)))
    } else {
        ("◉ High effort"@, line::bold(line::rgb(255, 200, 120)))
    };
    line::of_spans(
        seq![
            line::raw("  "@),
            line::sp(words, style),
            line::raw("   "@),
            line::sp("← → to adjust"@, permission::gray()),
        ],
    )
}

pub fn build_effort_line(thinking_idx: usize) -> (r: Line)
    ensures
        r@ == effort_line(thinking_idx as int),
{
    let (words, style): (&'static str, Style) = if thinking_idx == 0 {
        ("○ No effort", line::rgb(140, 145, 155))
    } else if thinking_idx == 1 {
        ("◔ Low effort", line::bold(line::rgb(190, 170, 140)))
    } else if thinking_idx == 2 {
        ("◑ Medium effort", line::bold(line::rgb(220, 185, 145)))
    } else {
        ("◉ High effort", line::bold(line::rgb(255, 200, 120)))
    };
    line::line4(
        line::raw_span("  "),
        line::span(words, style),
        line::raw_span("   "),
        line::span("← → to adjust", permission::gray()),
    )
}

/// The rows of the panel with `count` entries, counted in sixteen bits.
pub open spec fn panel_rows(count: int, thinks: bool, height: int) -> int {
    let extra = if thinks {
        6int
    } else {
        4
    };
    let wanted = text::min_int(count % 0x10000 + extra, u16::MAX as int);
    text::min_int(
        text::min_int(text::max_int(wanted, 5), 22),
        text::max_int(text::minus(height, 4), 1),
    )
}

/// The panel at the bottom of `area`.
pub open spec fn panel_area(area: Rect, rows: int) -> Rect {
    Rect {
        x: area.x,
        y: (area.y + area.height - rows) as u16,
        width: area.width,
        height: rows as u16,
    }
}

/// The rows for the entries: what the heading, the hint and the effort leave.
pub open spec fn list_rows(rows: int, thinks: bool) -> int {
    text::minus(
        rows - 3,
        if thinks {
            3
        } else {
            1
        },
    )
}

/// The panel as it is to be drawn.
#[derive(Debug, PartialEq, Eq)]
pub struct DrawnModelPanel {
    pub area: Rect,
    pub divider: Line,
    pub title: Line,
    pub subtitle: Line,
    /// The entries, and the area that they stand in.
    pub list: Rect,
    pub lines: Vec<Line>,
    /// The effort, and its row.
    pub effort: Option<(u16, Line)>,
    /// The hint, and its row.
    pub hint: (u16, Line),
}

pub open spec fn divider_line(width: int) -> LineView {
    line::of_spans(
        seq![line::sp(text::repeated('━', text::minus(width, 1)), line::colored(bright()))],
    )
}

pub open spec fn title_line() -> LineView {
    line::of_spans(seq![line::sp(" Select model"@, line::bold(line::colored(bright())))])
}

pub open spec fn subtitle_line() -> LineView {
    line::of_spans(seq![line::sp(" 切换模型，适用于当前会话和未来会话。"@, permission::gray())])
}

pub open spec fn hint_line(thinks: bool) -> LineView {
    line::of_spans(
        seq![
            line::sp(
                if thinks {
                    "  ↑↓ select  ·  ←→ effort  ·  Enter confirm  ·  Esc cancel"@
                } else {
                    "  ↑↓ select  ·  Enter confirm  ·  Esc cancel"@
                },
                permission::gray(),
            ),
        ],
    )
}

/// The drawn panel for the given choice.
pub open spec fn panel_shown(
    area: Rect,
    entries: Seq<ModelSelectionEntry>,
    selected: int,
    thinking_idx: int,
    active_provider: Seq<char>,
    active_model: Seq<char>,
    r: DrawnModelPanel,
) -> bool {
    let thinks = can_think(entries, selected);
    let rows = panel_rows(entries.len() as int, thinks, area.height as int);
    let list = list_rows(rows, thinks);
    let panel = panel_area(area, rows);
    &&& r.area == panel
    &&& r.divider@ == divider_line(area.width as int)
    &&& r.title@ == title_line()
    &&& r.subtitle@ == subtitle_line()
    &&& r.list == (Rect {
        x: panel.x,
        y: (panel.y + 3) as u16,
        width: panel.width,
        height: list as u16,
    })
    &&& line::lines_view(r.lines@) == entry_rows(
        entries,
        list,
        selected,
        active_provider,
        active_model,
    )
    &&& match r.effort {
        Some(e) => thinks && e.0 == panel.y + 3 + list + 1 && e.1@ == effort_line(thinking_idx),
        None => !thinks,
    }
    &&& r.hint.0 == panel.y + rows - 1
    &&& r.hint.1@ == hint_line(thinks)
}

fn panel_height(count: usize, thinks: bool, height: u16) -> (r: u16)
    ensures
        r == panel_rows(count as int, thinks, height as int),
{
    let short: u16 = (count % 0x10000) as u16;
    let wanted: u16 = short.saturating_add(
        if thinks {
            6
        } else {
            4
        },
    );
    let a: u16 = if wanted >= 5 {
        wanted
    } else {
        5
    };
    let b: u16 = if a <= 22 {
        a
    } else {
        22
    };
    let less: u16 = height.saturating_sub(4);
    let room: u16 = if less >= 1 {
        less
    } else {
        1
    };
    if b <= room {
        b
    } else {
        room
    }
}

/// Lays the panel out at the bottom of `area`, which has room for its heading.
pub fn render_model_panel(
    area: Rect,
    entries: &Vec<ModelSelectionEntry>,
    selected: usize,
    thinking_idx: usize,
    active_provider: &str,
    active_model: &str,
) -> (r: DrawnModelPanel)
    requires
        area.height >= 7,
        area.y + area.height + 4 <= u16::MAX,
    ensures
        panel_shown(
            area,
            entries@,
            selected as int,
            thinking_idx as int,
            active_provider@,
            active_model@,
            r,
        ),
{
    let thinks = has_thinking(entries, selected);
    let rows: u16 = panel_height(entries.len(), thinks, area.height);
    let panel = Rect {
        x: area.x,
        y: area.y + area.height - rows,
        width: area.width,
        height: rows,
    };
    let rest: u16 = rows - 3;
    let list: u16 = rest.saturating_sub(
        if thinks {
            3
        } else {
            1
        },
    );
    let dashes = text::repeat('━', area.width.saturating_sub(1) as usize);
    let divider = line::line1(line::span_of(dashes, line::colored(bright())));
    let title = line::line1(line::span(" Select model", line::bold(line::colored(bright()))));
    let subtitle = line::line1(
        line::span(" 切换模型，适用于当前会话和未来会话。", permission::gray()),
    );
    let lines = build_entry_rows(
        entries,
        list as usize,
        selected,
        active_provider,
        active_model,
    );
    let effort: Option<(u16, Line)> = if thinks {
        Some((panel.y + 3 + list + 1, build_effort_line(thinking_idx)))
    } else {
        None
    };
    let hint = line::line1(
        line::span(
            if thinks {
                "  ↑↓ select  ·  ←→ effort  ·  Enter confirm  ·  Esc cancel"
            } else {
                "  ↑↓ select  ·  Enter confirm  ·  Esc cancel"
            },
            permission::gray(),
        ),
    );
    DrawnModelPanel {
        area: panel,
        divider,
        title,
        subtitle,
        list: Rect { x: panel.x, y: panel.y + 3, width: panel.width, height: list },
        lines,
        effort,
        hint: (panel.y + rows - 1, hint),
    }
}

} // verus!
