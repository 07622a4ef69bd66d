//! The command synthesizer: converts the registry's proposed state into the
//! clauses of one external configuration command, committing each monitor's
//! pending enabled/disabled state as it goes.

use vstd::prelude::*;

use vstd::math::abs;

use crate::detect::{monitor_moved, spec_dirty, spec_monitor_dirty};
use crate::model::{lemma_totals_same, Monitor, Registry};
use crate::numtext::{dec_digits, i64_to_dec, int_text, u64_to_dec};
use vstd::string::StringExecFns;

verus! {

/// One per-monitor clause of the configuration command.
pub enum CommandClause {
    /// Switch the output on with the given mode and position.
    Enable { id: String, width: u32, height: u32, pos_x: u64, pos_y: i64 },
    /// Switch the output off.
    Disable { id: String },
}

/// The command: one clause per monitor, in registry order.
pub struct ConfigCommand {
    pub clauses: Vec<CommandClause>,
}

/// `num / den` rounded toward zero, as the hardware command wants whole
/// pixel coordinates.
pub open spec fn spec_trunc(num: int, den: int) -> int
    recommends
        den >= 1,
{
    if num >= 0 {
        num / den
    } else {
        -((-num) / den)
    }
}

/// The stable anchor x: the first monitor's layout-assigned logical x, or
/// zero before any layout pass.
pub open spec fn spec_net_zero_x(reg: Registry) -> int {
    match reg.layout {
        Some(l) => l.net_zero_x as int,
        None => 0,
    }
}

/// The stable anchor y.
pub open spec fn spec_net_zero_y(reg: Registry) -> int {
    match reg.layout {
        Some(l) => l.net_zero_y as int,
        None => 0,
    }
}

/// The whole-pixel x coordinate the command applies for monitor `i`: the
/// anchor minus the position when the monitor was moved since placement,
/// otherwise the raw position, truncated to logical pixels.
pub open spec fn spec_applied_x(reg: Registry, i: int) -> int {
    let m = reg.monitors@[i];
    if reg.spec_moved(m) {
        spec_trunc(spec_net_zero_x(reg) - m.pos_x, reg.den_x())
    } else {
        spec_trunc(m.pos_x as int, reg.den_x())
    }
}

/// The whole-pixel y coordinate the command applies for monitor `i`.
pub open spec fn spec_applied_y(reg: Registry, i: int) -> int {
    let m = reg.monitors@[i];
    if reg.spec_moved(m) {
        spec_trunc(spec_net_zero_y(reg) - m.pos_y, reg.den_y())
    } else {
        spec_trunc(m.pos_y as int, reg.den_y())
    }
}

/// The clause the command carries for monitor `i`: an enable clause with the
/// proposed (or committed) mode and the applied position — the absolute
/// value taken of x alone, deliberately keeping the engine's historical
/// asymmetry between the axes — or a disable clause.
pub open spec fn spec_clause_of(reg: Registry, i: int) -> CommandClause {
    let m = reg.monitors@[i];
    if m.proposed_status {
        CommandClause::Enable {
            id: m.id,
            width: match m.proposed_resolution {
                Some(pr) => pr.0,
                None => m.resolution.0,
            },
            height: match m.proposed_resolution {
                Some(pr) => pr.1,
                None => m.resolution.1,
            },
            pos_x: abs(spec_applied_x(reg, i)) as u64,
            pos_y: spec_applied_y(reg, i) as i64,
        }
    } else {
        CommandClause::Disable { id: m.id }
    }
}

/// `num / den` rounded toward zero.
pub fn trunc_div(num: i64, den: i64) -> (r: i64)
    requires
        1 <= den,
        -0x4000_0000_0000_0000 <= num <= 0x4000_0000_0000_0000,
    ensures
        r == spec_trunc(num as int, den as int),
        -0x4000_0000_0000_0000 <= r <= 0x4000_0000_0000_0000,
{
    proof {
        assert(0 <= num <= 0x4000_0000_0000_0000 ==> 0 <= num as int / den as int <= num)
            by (nonlinear_arith)
            requires
                1 <= den,
        ;
        assert(-0x4000_0000_0000_0000 <= num < 0 ==> 0 <= (-num) as int / den as int <= -num)
            by (nonlinear_arith)
            requires
                1 <= den,
        ;
    }
    if num >= 0 {
        ((num as u64) / (den as u64)) as i64
    } else {
        -(((-num) as u64 / (den as u64)) as i64)
    }
}

/// Synthesize the configuration command that applies the registry's proposed
/// state: one clause per monitor, in registry order, and commit each
/// monitor's pending status to its live `enabled` field.
#[verifier::loop_isolation(false)]
pub fn synthesize_command(reg: &mut Registry) -> (cmd: ConfigCommand)
    requires
        old(reg).wf(),
    ensures
        final(reg).wf(),
        final(reg).layout == old(reg).layout,
        final(reg).selected == old(reg).selected,
        final(reg).monitors@.len() == old(reg).monitors@.len(),
        cmd.clauses@.len() == old(reg).monitors@.len(),
        forall|i: int|
            0 <= i < old(reg).monitors@.len() ==> #[trigger] cmd.clauses@[i] == spec_clause_of(
                *old(reg),
                i,
            ),
        forall|i: int|
            0 <= i < old(reg).monitors@.len() ==> #[trigger] final(reg).monitors@[i] == (Monitor {
                enabled: old(reg).monitors@[i].proposed_status,
                ..old(reg).monitors@[i]
            }),
{
    let ghost ms = reg.monitors@;
    let ghost reg0 = *reg;
    let (den_x, den_y): (i64, i64) = match &reg.layout {
        Some(l) => (l.den_x, l.den_y),
        None => (1, 1),
    };
    let (nzx, nzy): (i64, i64) = match &reg.layout {
        Some(l) => (l.net_zero_x, l.net_zero_y),
        None => (0, 0),
    };
    proof {
        if reg.layout is Some {
            crate::layout::lemma_layout_bounds(reg.layout->Some_0, ms);
        }
    }
    let n = reg.monitors.len();
    let mut clauses: Vec<CommandClause> = Vec::new();
    let mut i: usize = 0;
    while i < n
        invariant
            0 <= i <= n,
            reg.monitors@.len() == n,
            reg.selected == old(reg).selected,
            reg.layout == old(reg).layout,
            clauses@.len() == i,
            forall|k: int| i <= k < n ==> #[trigger] reg.monitors@[k] == ms[k],
            forall|k: int| 0 <= k < i ==> #[trigger] clauses@[k] == spec_clause_of(reg0, k),
            forall|k: int|
                0 <= k < i ==> #[trigger] reg.monitors@[k] == (Monitor {
                    enabled: ms[k].proposed_status,
                    ..ms[k]
                }),
        decreases n - i,
    {
        proof {
            assert(reg.spec_moved(reg.monitors@[i as int]) == reg0.spec_moved(
                reg0.monitors@[i as int],
            ));
        }
        let moved = monitor_moved(reg, i);
        let m = &reg.monitors[i];
        if m.proposed_status {
            let ax_num: i64 = if moved {
                nzx - m.pos_x
            } else {
                m.pos_x
            };
            let ay_num: i64 = if moved {
                nzy - m.pos_y
            } else {
                m.pos_y
            };
            let ax = trunc_div(ax_num, den_x);
            let ay = trunc_div(ay_num, den_y);
            let xa: u64 = if ax >= 0 {
                ax as u64
            } else {
                (-ax) as u64
            };
            let (w, h): (u32, u32) = match m.proposed_resolution {
                Some(pr) => pr,
                None => m.resolution,
            };
            clauses.push(
                CommandClause::Enable {
                    id: m.id.clone(),
                    width: w,
                    height: h,
                    pos_x: xa,
                    pos_y: ay,
                },
            );
            reg.monitors[i].enabled = true;
        } else {
            clauses.push(CommandClause::Disable { id: m.id.clone() });
            reg.monitors[i].enabled = false;
        }
        i = i + 1;
    }
    proof {
        lemma_totals_same(reg.monitors@, ms);
    }
    ConfigCommand { clauses }
}

/// The text of one clause, in the external tool's invocation grammar.
pub open spec fn spec_clause_text(c: CommandClause) -> Seq<char> {
    match c {
        CommandClause::Enable { id, width, height, pos_x, pos_y } => " --output "@ + id@
            + " --mode "@ + dec_digits(width as int) + "x"@ + dec_digits(height as int)
            + " --pos "@ + dec_digits(pos_x as int) + "x"@ + int_text(pos_y as int),
        CommandClause::Disable { id } => " --output "@ + id@ + " --off"@,
    }
}

/// The text of the whole command: the tool's name followed by one clause
/// per monitor.
pub open spec fn spec_command_text(cs: Seq<CommandClause>) -> Seq<char>
    decreases cs.len(),
{
    if cs.len() == 0 {
        "xrandr"@
    } else {
        spec_command_text(cs.drop_last()) + spec_clause_text(cs.last())
    }
}

/// Render the command into the one shell line the external executor takes.
#[verifier::loop_isolation(false)]
pub fn render_command(cmd: &ConfigCommand) -> (s: String)
    ensures
        s@ == spec_command_text(cmd.clauses@),
{
    let n = cmd.clauses.len();
    let mut s = String::new();
    s.append("xrandr");
    proof {
        assert(cmd.clauses@.take(0) =~= Seq::<CommandClause>::empty());
        assert(s@ =~= spec_command_text(cmd.clauses@.take(0)));
    }
    let mut i: usize = 0;
    while i < n
        invariant
            0 <= i <= n,
            s@ == spec_command_text(cmd.clauses@.take(i as int)),
        decreases n - i,
    {
        proof {
            assert(cmd.clauses@.take(i + 1).drop_last() =~= cmd.clauses@.take(i as int));
            assert(cmd.clauses@.take(i + 1).last() == cmd.clauses@[i as int]);
        }
        match &cmd.clauses[i] {
            CommandClause::Enable { id, width, height, pos_x, pos_y } => {
                s.append(" --output ");
                s.append(id.as_str());
                s.append(" --mode ");
                let wt = u64_to_dec(*width as u64);
                s.append(wt.as_str());
                s.append("x");
                let ht = u64_to_dec(*height as u64);
                s.append(ht.as_str());
                s.append(" --pos ");
                let xt = u64_to_dec(*pos_x);
                s.append(xt.as_str());
                s.append("x");
                let yt = i64_to_dec(*pos_y);
                s.append(yt.as_str());
            },
            CommandClause::Disable { id } => {
                s.append(" --output ");
                s.append(id.as_str());
                s.append(" --off");
            },
        }
        proof {
            assert(s@ =~= spec_command_text(cmd.clauses@.take(i + 1)));
        }
        i = i + 1;
    }
    proof {
        assert(cmd.clauses@.take(n as int) =~= cmd.clauses@);
    }
    s
}

/// For a registry with no pending change every clause restates the committed
/// state: the monitor stays enabled at its committed resolution and at its
/// raw, untruncated-in-value position; and the apply action is not offered
/// beforehand, since the detector reports clean.
pub proof fn lemma_clean_registry_command(reg: Registry, i: int)
    requires
        reg.wf(),
        !spec_dirty(reg),
        0 <= i < reg.monitors@.len(),
    ensures
        reg.monitors@[i].enabled,
        spec_clause_of(reg, i) == (CommandClause::Enable {
            id: reg.monitors@[i].id,
            width: reg.monitors@[i].resolution.0,
            height: reg.monitors@[i].resolution.1,
            pos_x: abs(spec_trunc(reg.monitors@[i].pos_x as int, reg.den_x())) as u64,
            pos_y: spec_trunc(reg.monitors@[i].pos_y as int, reg.den_y()) as i64,
        }),
{
    assert(!spec_monitor_dirty(reg, i)) by {
        if spec_monitor_dirty(reg, i) {
            assert(spec_dirty(reg));
        }
    }
    let m = reg.monitors@[i];
    match m.proposed_resolution {
        Some(pr) => {
            assert(pr == m.resolution);
        },
        None => {},
    }
}

} // verus!
