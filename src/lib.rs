//! Live progress indicators driven by background workers and polled from a
//! single render loop: progress-bar groups fed through a channel, and a
//! scrolling marquee that advances with elapsed time.
mod channel;
mod event;
mod group;
mod item;
mod marquee;
mod text;

pub use event::{advanced, amounts, report_of, lemma_reports_monotone, reports, Message, Progress, ProgressView, FULL};
pub use group::{
    completed_after, completed_over, completions, draw_for, lemma_completed_over_push,
    lemma_group_counts_completions,
    step_of, BarView, ProgressBar, Step, Worker, MAX_STEP,
};
pub use item::{Draw, WindowItem};
pub use marquee::{
    instants, lemma_offset_after_polls, lemma_poll_frequency_independent, lemma_poll_idempotent,
    lemma_polled_all_push,
    marquee_line, polled_all, viewport, MarqueeView, ScrollingMsg, MS_PER_SEC,
};
pub use text::{
    bar_cells, bar_line, decimal, digit_char, fill_of, lemma_bar_ends, percent_text, render_bar,
    run_of, spaces,
};
