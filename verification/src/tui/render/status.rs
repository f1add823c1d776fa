//! The status line at the bottom.
use crate::text;
use crate::tui::line;
use crate::tui::line::Color;
use crate::tui::line::Line;
use crate::tui::line::LineView;
use crate::tui::line::Span;
use crate::tui::line::SpanView;
use crate::tui::line::Wave;
use crate::tui::state::AgentStatus;
use crate::tui::state::StatusBar;
use crate::tui::state::UiState;
use crate::types::config::ThinkingEffort;
use vstd::prelude::*;

verus! {

/// A path with the home directory at its start written as a tilde.
pub open spec fn from_home(path: Seq<char>, home: Seq<char>) -> Seq<char> {
    if home.len() > 0 && text::has_prefix(path, home) {
        "~"@ + path.skip(home.len() as int)
    } else {
        path
    }
}

pub fn shorten_home(path: &str, home: &str) -> (r: String)
    ensures
        r@ == from_home(path@, home@),
{
    if text::char_count(home) == 0 {
        return text::copy(path);
    }
    match text::strip_prefix(path, home) {
        Some(rest) => text::concat("~", rest.as_str()),
        None => text::copy(path),
    }
}

/// The model with its provider, and how hard it is to think.
pub open spec fn model_words(bar: StatusBar) -> Seq<char> {
    let model = if bar.active_provider@.len() == 0 {
        bar.model@
    } else {
        bar.active_provider@ + "/"@ + bar.model@
    };
    match bar.thinking_effort {
        Some(ThinkingEffort::Low) => model + "  low"@,
        Some(ThinkingEffort::Medium) => model + "  medium"@,
        Some(ThinkingEffort::High) => model + "  high"@,
        _ => model,
    }
}

fn model_text(bar: &StatusBar) -> (r: String)
    ensures
        r@ == model_words(*bar),
{
    let mut out = if text::char_count(bar.active_provider.as_str()) == 0 {
        text::copy(bar.model.as_str())
    } else {
        let mut t = text::copy(bar.active_provider.as_str());
        t.push_str("/");
        t.push_str(bar.model.as_str());
        t
    };
    match bar.thinking_effort {
        Some(ThinkingEffort::Low) => {
            out.push_str("  low");
        },
        Some(ThinkingEffort::Medium) => {
            out.push_str("  medium");
        },
        Some(ThinkingEffort::High) => {
            out.push_str("  high");
        },
        _ => {},
    }
    out
}

pub open spec fn status_words(status: AgentStatus) -> Seq<char> {
    match status {
        AgentStatus::Idle => "Ready"@,
        AgentStatus::Thinking => "Thinking"@,
        AgentStatus::Working => "Working"@,
        AgentStatus::AwaitingInput => "Waiting for you"@,
    }
}

/// The model, the directory and the status, which moves while the agent is busy.
pub open spec fn footer_line(bar: StatusBar, status: AgentStatus, home: Seq<char>) -> LineView {
    let dot = line::sp("·"@, line::colored(Color::DarkGray));
    let base = seq![
        line::raw(" "@),
        line::sp(" "@ + model_words(bar) + " "@, line::rgb(0xf6, 0xe2, 0xb7)),
        dot,
        line::sp(" "@ + from_home(bar.cwd@, home) + " "@, line::rgb(0xab, 0xdf, 0xa7)),
        dot,
    ];
    line::of_spans(
        if status == AgentStatus::Thinking || status == AgentStatus::Working {
            base + seq![
                line::raw(" "@),
                line::sp(status_words(status), line::colored(Color::Moving(Wave::Status))),
                line::raw(" "@),
            ]
        } else {
            base.push(line::sp(" "@ + status_words(status) + " "@, line::rgb(0xc8, 0xa9, 0xee)))
        },
    )
}

fn spaced(s: &str) -> (r: String)
    ensures
        r@ == " "@ + s@ + " "@,
{
    let mut out = text::concat(" ", s);
    out.push_str(" ");
    out
}

pub fn render_footer(state: &UiState, home: &str) -> (r: Line)
    ensures
        r@ == footer_line(state.status_bar, state.agent_status, home@),
{
    let model = model_text(&state.status_bar);
    let path = shorten_home(state.status_bar.cwd.as_str(), home);
    let mut spans: Vec<Span> = Vec::new();
    assert(line::spans_view(spans@) =~= Seq::<SpanView>::empty());
    line::push_span(&mut spans, line::raw_span(" "));
    line::push_span(
        &mut spans,
        line::span_of(spaced(model.as_str()), line::rgb(0xf6, 0xe2, 0xb7)),
    );
    line::push_span(&mut spans, line::span("·", line::colored(Color::DarkGray)));
    line::push_span(
        &mut spans,
        line::span_of(spaced(path.as_str()), line::rgb(0xab, 0xdf, 0xa7)),
    );
    line::push_span(&mut spans, line::span("·", line::colored(Color::DarkGray)));
    let label = state.agent_status.label();
    let status = state.agent_status;
    if status == AgentStatus::Thinking || status == AgentStatus::Working {
        line::push_span(&mut spans, line::raw_span(" "));
        line::push_span(
            &mut spans,
            line::span(label, line::colored(Color::Moving(Wave::Status))),
        );
        line::push_span(&mut spans, line::raw_span(" "));
    } else {
        line::push_span(
            &mut spans,
            line::span_of(spaced(label), line::rgb(0xc8, 0xa9, 0xee)),
        );
    }
    assert(line::spans_view(spans@) =~= footer_line(
        state.status_bar,
        state.agent_status,
        home@,
    ).spans);
    line::line_of(spans)
}

} // verus!
