//! The demo facade: owns the byte cursor, the decoded header, the
//! console-command log and the memoized final tick count, and replays the
//! command stream. The walk of the stream is proved to agree with a run of
//! the ghost machine in `machine`.

use vstd::prelude::*;
use crate::cursor::Cursor;
use crate::error::DemoError;
use crate::header::{Header, HEADER_LEN, header_matches, read_header};
use crate::machine::{MachineState, MachineStep, StopReason, run, step, stall_bound, lemma_run_succ};

verus! {

/// A tick option as a mathematical option.
pub open spec fn tick_view(t: Option<i32>) -> Option<int> {
    match t {
        Some(v) => Some(v as int),
        None => None,
    }
}

/// The console-command log as a sequence of (tick, text) pairs.
pub open spec fn log_view(cmds: Seq<(i32, String)>) -> Seq<(int, Seq<char>)> {
    cmds.map_values(|p: (i32, String)| (p.0 as int, p.1@))
}

/// The machine state at the start of a command-stream walk from cursor
/// position `pos`: no tick pending, no tick recorded yet, and the log
/// carried over from the decoder's state.
pub open spec fn start_state(pos: int, cmds: Seq<(i32, String)>) -> MachineState {
    MachineState { pos: pos, pending: 0, observed: None, log: log_view(cmds) }
}

/// Appending one command to the log commutes with taking its view.
proof fn lemma_log_view_push(s: Seq<(i32, String)>, x: (i32, String))
    ensures
        log_view(s.push(x)) =~= log_view(s).push((x.0 as int, x.1@)),
{
}

/// The bounded run witness for a walk that halts at its very next step.
proof fn lemma_halt_witness(
    b: Seq<u8>,
    signon: int,
    st0: MachineState,
    n: nat,
    cur: MachineState,
    out: MachineStep,
)
    requires
        run(b, signon, st0, n) == MachineStep::Next(cur),
        step(b, signon, cur) == out,
        n + 1 <= stall_bound(b.len()),
    ensures
        exists|m: nat| m <= stall_bound(b.len()) && run(b, signon, st0, m) == out,
{
    lemma_run_succ(b, signon, st0, n, cur);
    assert(((n + 1) as nat) <= stall_bound(b.len()) && run(b, signon, st0, (n + 1) as nat)
        == out);
}

/// One demo file being decoded: the cursor over its bytes, the header, the
/// accumulated console-command log, the memoized result and, once a walk
/// has ended without an error, the reason it stopped. The result is
/// memoized only by a successful decode: a failed decode leaves no usable
/// tick behind.
#[derive(Debug)]
pub struct Demo {
    pub cursor: Cursor,
    pub header: Header,
    pub cmds: Vec<(i32, String)>,
    pub ticks: Option<i32>,
    pub stop: Option<StopReason>,
}

impl Demo {
    /// A fresh decoder over `data`, with an unset result.
    pub fn new(data: Vec<u8>) -> (d: Demo)
        ensures
            d.cursor.data@ == data@,
            d.cursor.pos == 0,
            d.ticks is None,
            d.stop is None,
            d.cmds@ =~= Seq::<(i32, String)>::empty(),
            d.header.magic@ =~= Seq::<char>::empty(),
            d.header.server@ =~= Seq::<char>::empty(),
            d.header.client@ =~= Seq::<char>::empty(),
            d.header.map_name@ =~= Seq::<char>::empty(),
            d.header.dir@ =~= Seq::<char>::empty(),
            d.header.dem_protocol == 0,
            d.header.net_protocol == 0,
            d.header.time_bits == 0,
            d.header.ticks == 0,
            d.header.frames == 0,
            d.header.signon == 0,
    {
        proof {
            reveal_strlit("");
        }
        Demo {
            cursor: Cursor::new(data),
            header: Header {
                magic: String::from_str(""),
                dem_protocol: 0,
                net_protocol: 0,
                server: String::from_str(""),
                client: String::from_str(""),
                map_name: String::from_str(""),
                dir: String::from_str(""),
                time_bits: 0,
                ticks: 0,
                frames: 0,
                signon: 0,
            },
            cmds: Vec::new(),
            ticks: None,
            stop: None,
        }
    }

    /// Replays the command stream from the current cursor position until a
    /// terminal record, a tick regression, or a failure. On success the
    /// memoized tick, the log and the stop reason are exactly those of a
    /// completed run of the ghost machine; on failure the error is that of
    /// a failed run and the memoized tick is untouched: no partial result
    /// survives a failure.
    #[verifier::loop_isolation(false)]
    fn read_body(&mut self) -> (r: Result<(), DemoError>)
        ensures
            final(self).cursor.data@ == old(self).cursor.data@,
            final(self).header == old(self).header,
            ({
                let b = old(self).cursor.data@;
                let signon = old(self).header.signon as int;
                let st0 = start_state(old(self).cursor.pos as int, old(self).cmds@);
                match r {
                    Ok(_) => {
                        &&& final(self).ticks is Some
                        &&& final(self).stop is Some
                        &&& exists|n: nat|
                            n <= stall_bound(b.len()) && run(b, signon, st0, n)
                                == (MachineStep::Done {
                                observed: final(self).ticks->0 as int,
                                log: log_view(final(self).cmds@),
                                reason: final(self).stop->0,
                            })
                    },
                    Err(e) => {
                        &&& final(self).ticks == old(self).ticks
                        &&& {
                            ||| exists|n: nat|
                                n <= stall_bound(b.len()) && run(b, signon, st0, n)
                                    == (MachineStep::Fail {
                                    err: e,
                                    log: log_view(final(self).cmds@),
                                })
                            ||| (e == DemoError::StalledStream && run(
                                b,
                                signon,
                                st0,
                                stall_bound(b.len()),
                            ) is Next)
                        }
                    },
                }
            }),
    {
        let ghost b = self.cursor.data@;
        let ghost signon_v = self.header.signon as int;
        let ghost st0 = start_state(self.cursor.pos as int, self.cmds@);
        let mut current_tick: i32 = 0;
        let mut observed: Option<i32> = None;
        let mut budget: u128 = self.cursor.data.len() as u128 + 0x1_0000_0002;
        let ghost mut steps: nat = 0;
        let ghost mut cur: MachineState = st0;
        loop
            invariant
                self.cursor.data@ == b,
                self.header == old(self).header,
                self.ticks == old(self).ticks,
                steps + budget == stall_bound(b.len()),
                cur == (MachineState {
                    pos: self.cursor.pos as int,
                    pending: current_tick as int,
                    observed: tick_view(observed),
                    log: log_view(self.cmds@),
                }),
                run(b, signon_v, st0, steps) == MachineStep::Next(cur),
            decreases budget,
        {
            if budget == 0 {
                return Err(DemoError::StalledStream);
            }
            budget = budget - 1;
            let ghost pre = cur;
            let tag_pos = self.cursor.pos;
            let tag = match self.cursor.read_u8() {
                Ok(t) => t,
                Err(e) => {
                    proof {
                        lemma_halt_witness(b, signon_v, st0, steps, pre, (MachineStep::Fail {
                            err: e,
                            log: log_view(self.cmds@),
                        }));
                    }
                    return Err(e);
                },
            };
            if let Some(t) = observed {
                if current_tick < t {
                    self.ticks = Some(t);
                    self.stop = Some(StopReason::Regression);
                    proof {
                        lemma_halt_witness(b, signon_v, st0, steps, pre, (MachineStep::Done {
                            observed: t as int,
                            log: log_view(self.cmds@),
                            reason: StopReason::Regression,
                        }));
                    }
                    return Ok(());
                }
            }
            observed = Some(current_tick);
            match tag {
                1 => {
                    match self.cursor.seek_relative(self.header.signon as i64 - 1) {
                        Ok(_) => {},
                        Err(e) => {
                            proof {
                                lemma_halt_witness(b, signon_v, st0, steps, pre, (MachineStep::Fail {
                                    err: e,
                                    log: log_view(self.cmds@),
                                }));
                            }
                            return Err(e);
                        },
                    }
                },
                2 => {
                    current_tick = match self.cursor.read_i32() {
                        Ok(v) => v,
                        Err(e) => {
                            proof {
                                lemma_halt_witness(b, signon_v, st0, steps, pre, (MachineStep::Fail {
                                    err: e,
                                    log: log_view(self.cmds@),
                                }));
                            }
                            return Err(e);
                        },
                    };
                    match self.cursor.seek_relative(4) {
                        Ok(_) => {},
                        Err(e) => {
                            proof {
                                lemma_halt_witness(b, signon_v, st0, steps, pre, (MachineStep::Fail {
                                    err: e,
                                    log: log_view(self.cmds@),
                                }));
                            }
                            return Err(e);
                        },
                    }
                    match self.cursor.seek_relative(80) {
                        Ok(_) => {},
                        Err(e) => {
                            proof {
                                lemma_halt_witness(b, signon_v, st0, steps, pre, (MachineStep::Fail {
                                    err: e,
                                    log: log_view(self.cmds@),
                                }));
                            }
                            return Err(e);
                        },
                    }
                    let data_size = match self.cursor.read_i32() {
                        Ok(v) => v,
                        Err(e) => {
                            proof {
                                lemma_halt_witness(b, signon_v, st0, steps, pre, (MachineStep::Fail {
                                    err: e,
                                    log: log_view(self.cmds@),
                                }));
                            }
                            return Err(e);
                        },
                    };
                    match self.cursor.seek_relative(data_size as i64) {
                        Ok(_) => {},
                        Err(e) => {
                            proof {
                                lemma_halt_witness(b, signon_v, st0, steps, pre, (MachineStep::Fail {
                                    err: e,
                                    log: log_view(self.cmds@),
                                }));
                            }
                            return Err(e);
                        },
                    }
                },
                3 => {
                    current_tick = match self.cursor.read_i32() {
                        Ok(v) => v,
                        Err(e) => {
                            proof {
                                lemma_halt_witness(b, signon_v, st0, steps, pre, (MachineStep::Fail {
                                    err: e,
                                    log: log_view(self.cmds@),
                                }));
                            }
                            return Err(e);
                        },
                    };
                },
                4 => {
                    current_tick = match self.cursor.read_i32() {
                        Ok(v) => v,
                        Err(e) => {
                            proof {
                                lemma_halt_witness(b, signon_v, st0, steps, pre, (MachineStep::Fail {
                                    err: e,
                                    log: log_view(self.cmds@),
                                }));
                            }
                            return Err(e);
                        },
                    };
                    let data_size = match self.cursor.read_i32() {
                        Ok(v) => v,
                        Err(e) => {
                            proof {
                                lemma_halt_witness(b, signon_v, st0, steps, pre, (MachineStep::Fail {
                                    err: e,
                                    log: log_view(self.cmds@),
                                }));
                            }
                            return Err(e);
                        },
                    };
                    if data_size < 0 {
                        proof {
                            lemma_halt_witness(b, signon_v, st0, steps, pre, (MachineStep::Fail {
                                err: DemoError::UnexpectedEndOfData,
                                log: log_view(self.cmds@),
                            }));
                        }
                        return Err(DemoError::UnexpectedEndOfData);
                    }
                    let text = match self.cursor.read_string(data_size as usize) {
                        Ok(s) => s,
                        Err(e) => {
                            proof {
                                lemma_halt_witness(b, signon_v, st0, steps, pre, (MachineStep::Fail {
                                    err: e,
                                    log: log_view(self.cmds@),
                                }));
                            }
                            return Err(e);
                        },
                    };
                    proof {
                        lemma_log_view_push(self.cmds@, (current_tick, text));
                    }
                    self.cmds.push((current_tick, text));
                },
                5 => {
                    current_tick = match self.cursor.read_i32() {
                        Ok(v) => v,
                        Err(e) => {
                            proof {
                                lemma_halt_witness(b, signon_v, st0, steps, pre, (MachineStep::Fail {
                                    err: e,
                                    log: log_view(self.cmds@),
                                }));
                            }
                            return Err(e);
                        },
                    };
                    match self.cursor.seek_relative(4) {
                        Ok(_) => {},
                        Err(e) => {
                            proof {
                                lemma_halt_witness(b, signon_v, st0, steps, pre, (MachineStep::Fail {
                                    err: e,
                                    log: log_view(self.cmds@),
                                }));
                            }
                            return Err(e);
                        },
                    }
                    let data_size = match self.cursor.read_i32() {
                        Ok(v) => v,
                        Err(e) => {
                            proof {
                                lemma_halt_witness(b, signon_v, st0, steps, pre, (MachineStep::Fail {
                                    err: e,
                                    log: log_view(self.cmds@),
                                }));
                            }
                            return Err(e);
                        },
                    };
                    match self.cursor.seek_relative(data_size as i64) {
                        Ok(_) => {},
                        Err(e) => {
                            proof {
                                lemma_halt_witness(b, signon_v, st0, steps, pre, (MachineStep::Fail {
                                    err: e,
                                    log: log_view(self.cmds@),
                                }));
                            }
                            return Err(e);
                        },
                    }
                },
                6 => {
                    self.ticks = Some(current_tick);
                    self.stop = Some(StopReason::Unimplemented);
                    proof {
                        lemma_halt_witness(b, signon_v, st0, steps, pre, (MachineStep::Done {
                            observed: current_tick as int,
                            log: log_view(self.cmds@),
                            reason: StopReason::Unimplemented,
                        }));
                    }
                    return Ok(());
                },
                7 => {
                    self.ticks = Some(current_tick);
                    self.stop = Some(StopReason::Terminator);
                    proof {
                        lemma_halt_witness(b, signon_v, st0, steps, pre, (MachineStep::Done {
                            observed: current_tick as int,
                            log: log_view(self.cmds@),
                            reason: StopReason::Terminator,
                        }));
                    }
                    return Ok(());
                },
                8 => {
                    current_tick = match self.cursor.read_i32() {
                        Ok(v) => v,
                        Err(e) => {
                            proof {
                                lemma_halt_witness(b, signon_v, st0, steps, pre, (MachineStep::Fail {
                                    err: e,
                                    log: log_view(self.cmds@),
                                }));
                            }
                            return Err(e);
                        },
                    };
                    let data_size = match self.cursor.read_i32() {
                        Ok(v) => v,
                        Err(e) => {
                            proof {
                                lemma_halt_witness(b, signon_v, st0, steps, pre, (MachineStep::Fail {
                                    err: e,
                                    log: log_view(self.cmds@),
                                }));
                            }
                            return Err(e);
                        },
                    };
                    match self.cursor.seek_relative(data_size as i64) {
                        Ok(_) => {},
                        Err(e) => {
                            proof {
                                lemma_halt_witness(b, signon_v, st0, steps, pre, (MachineStep::Fail {
                                    err: e,
                                    log: log_view(self.cmds@),
                                }));
                            }
                            return Err(e);
                        },
                    }
                },
                _ => {
                    proof {
                        lemma_halt_witness(b, signon_v, st0, steps, pre, (MachineStep::Fail {
                            err: DemoError::UnrecognizedTag { tag: tag, offset: tag_pos },
                            log: log_view(self.cmds@),
                        }));
                    }
                    return Err(DemoError::UnrecognizedTag { tag: tag, offset: tag_pos });
                },
            }
            proof {
                lemma_run_succ(b, signon_v, st0, steps, pre);
                let new_cur = MachineState {
                    pos: self.cursor.pos as int,
                    pending: current_tick as int,
                    observed: tick_view(observed),
                    log: log_view(self.cmds@),
                };
                assert(step(b, signon_v, pre) == MachineStep::Next(new_cur));
                steps = (steps + 1) as nat;
                cur = new_cur;
            }
        }
    }

    /// Decodes the demo: on the first call, reads the header and replays
    /// the command stream, memoizing the highest tick observed when — and
    /// only when — the walk ends without an error; a failed decode leaves
    /// the result unset. Once a result is memoized, any later call returns
    /// it without touching the cursor. The result of a completed first call
    /// is exactly that of a run of the ghost machine started just past the
    /// header.
    pub fn parse(&mut self) -> (r: Result<i32, DemoError>)
        ensures
            final(self).cursor.data@ == old(self).cursor.data@,
            old(self).ticks is Some ==> {
                &&& r == Ok::<i32, DemoError>(old(self).ticks->0)
                &&& *final(self) == *old(self)
            },
            old(self).ticks is None ==> ({
                let b = old(self).cursor.data@;
                let p0 = old(self).cursor.pos as int;
                if p0 + HEADER_LEN <= b.len() {
                    &&& header_matches(final(self).header, b, p0)
                    &&& ({
                        let st0 = start_state(p0 + HEADER_LEN, old(self).cmds@);
                        let signon = final(self).header.signon as int;
                        match r {
                            Ok(t) => {
                                &&& final(self).ticks == Some(t)
                                &&& final(self).stop is Some
                                &&& exists|n: nat|
                                    n <= stall_bound(b.len()) && run(b, signon, st0, n)
                                        == (MachineStep::Done {
                                        observed: t as int,
                                        log: log_view(final(self).cmds@),
                                        reason: final(self).stop->0,
                                    })
                            },
                            Err(e) => {
                                &&& final(self).ticks is None
                                &&& {
                                    ||| exists|n: nat|
                                        n <= stall_bound(b.len()) && run(b, signon, st0, n)
                                            == (MachineStep::Fail {
                                            err: e,
                                            log: log_view(final(self).cmds@),
                                        })
                                    ||| (e == DemoError::StalledStream && run(
                                        b,
                                        signon,
                                        st0,
                                        stall_bound(b.len()),
                                    ) is Next)
                                }
                            },
                        }
                    })
                } else {
                    &&& r == Err::<i32, DemoError>(DemoError::UnexpectedEndOfData)
                    &&& *final(self) == *old(self)
                }
            }),
    {
        if let Some(t) = self.ticks {
            return Ok(t);
        }
        let h = match read_header(&mut self.cursor) {
            Ok(h) => h,
            Err(e) => {
                return Err(e);
            },
        };
        self.header = h;
        match self.read_body() {
            Ok(_) => {},
            Err(e) => {
                return Err(e);
            },
        }
        if let Some(t) = self.ticks {
            Ok(t)
        } else {
            proof {
                assert(false);
            }
            Err(DemoError::UnexpectedEndOfData)
        }
    }
}

} // verus!
