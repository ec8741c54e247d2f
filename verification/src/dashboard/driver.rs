//! What the panel shows, and when it is drawn.

use vstd::prelude::*;

use crate::dashboard::render;
use crate::dashboard::sparkline;
use crate::dashboard::sparkline::{ROLLING_WINDOW_MS, SPARKLINE_COLUMNS};
use crate::dashboard::throttle;
use crate::dashboard::throttle::RenderThrottle;
use crate::orchestrator::state::StateSnapshot;

verus! {

/// What the panel waits for. Times are in milliseconds since the panel's start.
#[derive(Debug, Clone, Copy, PartialEq, Eq)]
pub enum DashboardEvent {
    Started,
    Changed(i64),
    Deadline(i64),
}

/// The panel's memory.
#[derive(Debug)]
pub struct Dashboard {
    pub gate: RenderThrottle,
    pub samples: Vec<(i64, u64)>,
    pub max_agents: u32,
}

/// Whether an event has the panel drawn.
pub open spec fn draws(gate: RenderThrottle, event: DashboardEvent) -> bool {
    match event {
        DashboardEvent::Started => throttle::is_due(gate, 0),
        DashboardEvent::Changed(now) => throttle::is_due(gate, now),
        DashboardEvent::Deadline(now) => throttle::is_ripe(gate, now),
    }
}

/// The throttle after an event.
pub open spec fn gate_after(gate: RenderThrottle, event: DashboardEvent) -> RenderThrottle {
    match event {
        DashboardEvent::Started => throttle::requested(gate, 0),
        DashboardEvent::Changed(now) => throttle::requested(gate, now),
        DashboardEvent::Deadline(now) => if throttle::is_ripe(gate, now) {
            throttle::drawn(gate, now)
        } else {
            gate
        },
    }
}

impl Dashboard {
    /// A panel that is drawn at most once in an interval.
    pub fn new(render_interval_ms: u64, max_agents: u32) -> (r: Self)
        ensures
            throttle::sound(r.gate),
            r.gate.last_render_at_ms is None,
            r.gate.interval_ms == (if render_interval_ms == 0 {
                1int
            } else if render_interval_ms > i64::MAX {
                i64::MAX as int
            } else {
                render_interval_ms as int
            }),
            r.samples@ == Seq::<(i64, u64)>::empty(),
            r.max_agents == max_agents,
    {
        Dashboard {
            gate: RenderThrottle::new(render_interval_ms),
            samples: Vec::new(),
            max_agents,
        }
    }

    /// Takes an event in and tells whether to draw.
    pub fn handle(&mut self, event: DashboardEvent) -> (r: bool)
        requires
            old(self).gate.interval_ms >= 1,
        ensures
            r == draws(old(self).gate, event),
            final(self).gate == gate_after(old(self).gate, event),
            final(self).samples == old(self).samples,
            final(self).max_agents == old(self).max_agents,
    {
        match event {
            DashboardEvent::Started => self.gate.request(0),
            DashboardEvent::Changed(now) => self.gate.request(now),
            DashboardEvent::Deadline(now) => self.gate.flush_if_ready(now),
        }
    }

    /// Takes a sample of the tokens that have been used.
    pub fn sample(&mut self, now_ms: i64, total_tokens: u64)
        ensures
            final(self).samples@ == old(self).samples@.filter(
                |sample: (i64, u64)| sample.0 >= sparkline::oldest_kept(now_ms),
            ).push((now_ms, total_tokens)),
            final(self).gate == old(self).gate,
            final(self).max_agents == old(self).max_agents,
    {
        self.samples = sparkline::update_token_samples(
            self.samples.as_slice(),
            now_ms,
            total_tokens,
        );
    }

    /// The panel of a snapshot, with the chart of the samples. The throughput is given as text.
    pub fn draw(&self, snapshot: &StateSnapshot, tps: &str) -> (r: String)
        ensures
            r@ == render::panel(
                *snapshot,
                tps@,
                sparkline::blocks(
                    sparkline::columns_of(
                        self.samples@,
                        ROLLING_WINDOW_MS,
                        SPARKLINE_COLUMNS as nat,
                    ),
                ),
                self.max_agents,
            ),
    {
        let chart: String = sparkline::compute_sparkline(
            self.samples.as_slice(),
            ROLLING_WINDOW_MS,
            SPARKLINE_COLUMNS,
        );
        render::render_panel_with_context(snapshot, tps, chart.as_str(), self.max_agents)
    }
}

/// The panel is drawn on a start and on a change if it was not drawn within the interval, and at a
/// deadline if something was held back until then; each drawing is remembered.
pub proof fn lemma_panel_is_drawn(gate: RenderThrottle, last: i64, at: i64, now: i64)
    ensures
        gate.last_render_at_ms is None ==> draws(gate, DashboardEvent::Started) && draws(
            gate,
            DashboardEvent::Changed(now),
        ),
        gate.last_render_at_ms == Some(last) ==> (draws(gate, DashboardEvent::Changed(now))
            <==> now - last >= gate.interval_ms),
        gate.pending && gate.next_render_at_ms == Some(at) ==> (draws(
            gate,
            DashboardEvent::Deadline(now),
        ) <==> now >= at),
        !gate.pending ==> !draws(gate, DashboardEvent::Deadline(now)),
        draws(gate, DashboardEvent::Changed(now)) ==> gate_after(
            gate,
            DashboardEvent::Changed(now),
        ).last_render_at_ms == Some(now),
        draws(gate, DashboardEvent::Deadline(now)) ==> gate_after(
            gate,
            DashboardEvent::Deadline(now),
        ).last_render_at_ms == Some(now),
        !draws(gate, DashboardEvent::Changed(now)) ==> gate_after(
            gate,
            DashboardEvent::Changed(now),
        ).pending,
        !draws(gate, DashboardEvent::Deadline(now)) ==> gate_after(
            gate,
            DashboardEvent::Deadline(now),
        ) == gate,
{
}

} // verus!
