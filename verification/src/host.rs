//! The script host's lifecycle: one sandboxed execution context, driven
//! `Unloaded → Loading → Loaded → Evaluated`, with a permanent failure
//! state. The host owns every decision — which transitions are legal,
//! when the cooperative event loop has been pumped long enough, which
//! export may be invoked — while the embedding performs the outside
//! work and reports each outcome back as a plain event.
//!
//! The host is not reentrant: callers serialize all calls on one
//! instance.

use vstd::prelude::*;

use crate::value::{Value, ValueModel, fields_model, lemma_fields_model_index, value_model};

verus! {

/// Where the host stands in its lifecycle.
#[derive(Debug, Clone, Copy, PartialEq, Eq)]
pub enum HostPhase {
    /// No module loaded yet.
    Unloaded,
    /// A module load has begun and not yet finished.
    Loading,
    /// The module is loaded; its body is being evaluated.
    Loaded,
    /// Evaluation ran to completion; exports may be invoked.
    Evaluated,
    /// A permanent failure: no further exports may be invoked.
    Failed,
}

/// What can go wrong in the host's lifecycle.
#[derive(Debug, Clone, Copy, PartialEq, Eq)]
pub enum HostError {
    /// The module source could not be parsed or resolved.
    LoadFailed,
    /// Evaluation ended in an unhandled failure.
    EvaluationFailed,
    /// The event loop never went idle within the pump budget.
    NeverSettled,
    /// No export of the requested name is available.
    ExportMissing,
    /// The export exists but is not a function.
    ExportNotCallable,
    /// The export's invocation threw.
    CallFailed,
    /// A lifecycle method was called in the wrong phase.
    OutOfOrder,
}

/// One export of the evaluated module, as the embedding reports it.
#[derive(Debug, Clone, PartialEq, Eq)]
pub struct Export {
    pub name: String,
    /// Whether the export is a function value.
    pub callable: bool,
}

/// One turn of the embedding's event loop, as reported to the host.
pub enum PumpEvent {
    /// Work remains scheduled.
    Working,
    /// No further work remains; these are the module's exports.
    Idle(Vec<Export>),
    /// An unhandled rejection surfaced during evaluation.
    Rejected,
}

/// The host's answer to one pump turn.
#[derive(Debug, Clone, Copy, PartialEq, Eq)]
pub enum PumpStatus {
    /// Keep pumping.
    Evaluating,
    /// Evaluation is complete.
    Settled,
}

/// How an export invocation ended, as the embedding reports it.
pub enum CallOutcome {
    /// The export returned this value.
    Returned(Value),
    /// The export threw.
    Threw,
}

/// The spec view of a list of exports: name and callability.
pub open spec fn export_entries(s: Seq<Export>) -> Seq<(Seq<char>, bool)> {
    Seq::new(s.len(), |i: int| (s[i].name@, s[i].callable))
}

/// Whether the first export with the given name is callable, if any.
pub open spec fn export_of(s: Seq<(Seq<char>, bool)>, name: Seq<char>) -> Option<bool>
    decreases s.len(),
{
    if s.len() == 0 {
        Option::None
    } else if s[0].0 == name {
        Option::Some(s[0].1)
    } else {
        export_of(s.drop_first(), name)
    }
}

/// One sandboxed script execution context, driven by its owner.
pub struct ScriptHost {
    phase: HostPhase,
    budget: u32,
    exports: Vec<Export>,
}

impl ScriptHost {
    /// The current lifecycle phase.
    pub closed spec fn phase(self) -> HostPhase {
        self.phase
    }

    /// How many more pump turns the host will tolerate.
    pub closed spec fn budget_left(self) -> u32 {
        self.budget
    }

    /// The evaluated module's exports.
    pub closed spec fn exports_model(self) -> Seq<(Seq<char>, bool)> {
        export_entries(self.exports@)
    }

    /// A fresh host: unloaded, with the given pump budget.
    pub fn new(pump_budget: u32) -> (h: ScriptHost)
        ensures
            h.phase() == HostPhase::Unloaded,
            h.budget_left() == pump_budget,
            h.exports_model() == Seq::<(Seq<char>, bool)>::empty(),
    {
        let h = ScriptHost { phase: HostPhase::Unloaded, budget: pump_budget, exports: Vec::new() };
        proof {
            assert(h.exports_model() =~= Seq::<(Seq<char>, bool)>::empty());
        }
        h
    }

    /// The current phase, for the embedding to inspect.
    pub fn current_phase(&self) -> (p: HostPhase)
        ensures
            p == self.phase(),
    {
        self.phase
    }

    /// Begins loading the single top-level module. Legal only once, from
    /// the unloaded phase.
    pub fn begin_load(&mut self) -> (r: Result<(), HostError>)
        ensures
            old(self).phase() == HostPhase::Unloaded ==> r is Ok && final(self).phase()
                == HostPhase::Loading,
            old(self).phase() != HostPhase::Unloaded ==> r == Result::Err::<(), HostError>(
                HostError::OutOfOrder,
            ) && final(self).phase() == old(self).phase(),
            final(self).budget_left() == old(self).budget_left(),
            final(self).exports_model() == old(self).exports_model(),
    {
        match self.phase {
            HostPhase::Unloaded => {
                self.phase = HostPhase::Loading;
                Result::Ok(())
            },
            _ => Result::Err(HostError::OutOfOrder),
        }
    }

    /// Finishes loading: the embedding reports whether the source parsed
    /// and its static imports resolved. A failure is a load error and
    /// leaves the host permanently failed.
    pub fn finish_load(&mut self, parsed: bool) -> (r: Result<(), HostError>)
        ensures
            old(self).phase() == HostPhase::Loading && parsed ==> r is Ok && final(self).phase()
                == HostPhase::Loaded,
            old(self).phase() == HostPhase::Loading && !parsed ==> r == Result::Err::<
                (),
                HostError,
            >(HostError::LoadFailed) && final(self).phase() == HostPhase::Failed,
            old(self).phase() != HostPhase::Loading ==> r == Result::Err::<(), HostError>(
                HostError::OutOfOrder,
            ) && final(self).phase() == old(self).phase(),
            final(self).budget_left() == old(self).budget_left(),
            final(self).exports_model() == old(self).exports_model(),
    {
        match self.phase {
            HostPhase::Loading => {
                if parsed {
                    self.phase = HostPhase::Loaded;
                    Result::Ok(())
                } else {
                    self.phase = HostPhase::Failed;
                    Result::Err(HostError::LoadFailed)
                }
            },
            _ => Result::Err(HostError::OutOfOrder),
        }
    }

    /// Takes one event-loop turn into account while evaluating the
    /// module body. Work left decrements the bounded pump budget — a
    /// host whose budget runs out fails permanently rather than pumping
    /// forever; idleness completes evaluation and installs the reported
    /// exports; an unhandled rejection fails the host permanently.
    pub fn pump_step(&mut self, event: PumpEvent) -> (r: Result<PumpStatus, HostError>)
        ensures
            old(self).phase() != HostPhase::Loaded ==> r == Result::Err::<PumpStatus, HostError>(
                HostError::OutOfOrder,
            ) && final(self).phase() == old(self).phase() && final(self).budget_left() == old(self).budget_left() && final(self).exports_model() == old(self).exports_model(),
            old(self).phase() == HostPhase::Loaded ==> (match event {
                PumpEvent::Working => {
                    if old(self).budget_left() > 0 {
                        r == Result::Ok::<PumpStatus, HostError>(PumpStatus::Evaluating) && final(self).phase() == HostPhase::Loaded && final(self).budget_left() == old(self).budget_left() - 1
                    } else {
                        r == Result::Err::<PumpStatus, HostError>(HostError::NeverSettled)
                            && final(self).phase() == HostPhase::Failed
                    }
                },
                PumpEvent::Idle(exports) => r == Result::Ok::<PumpStatus, HostError>(
                    PumpStatus::Settled,
                ) && final(self).phase() == HostPhase::Evaluated && final(self).exports_model()
                    == export_entries(exports@),
                PumpEvent::Rejected => r == Result::Err::<PumpStatus, HostError>(
                    HostError::EvaluationFailed,
                ) && final(self).phase() == HostPhase::Failed,
            }),
    {
        match self.phase {
            HostPhase::Loaded => match event {
                PumpEvent::Working => {
                    if self.budget > 0 {
                        self.budget = self.budget - 1;
                        Result::Ok(PumpStatus::Evaluating)
                    } else {
                        self.phase = HostPhase::Failed;
                        Result::Err(HostError::NeverSettled)
                    }
                },
                PumpEvent::Idle(exports) => {
                    self.phase = HostPhase::Evaluated;
                    self.exports = exports;
                    Result::Ok(PumpStatus::Settled)
                },
                PumpEvent::Rejected => {
                    self.phase = HostPhase::Failed;
                    Result::Err(HostError::EvaluationFailed)
                },
            },
            _ => Result::Err(HostError::OutOfOrder),
        }
    }

    /// Whether the named export may be invoked now. Before evaluation
    /// has completed there is no export to find, so the answer is a
    /// missing-export error — never an unchecked access. After
    /// evaluation: missing name, non-callable export, or permission to
    /// call.
    pub fn invoke(&self, name: &str) -> (r: Result<(), HostError>)
        ensures
            self.phase() != HostPhase::Evaluated ==> r == Result::Err::<(), HostError>(
                HostError::ExportMissing,
            ),
            self.phase() == HostPhase::Evaluated ==> (match export_of(
                self.exports_model(),
                name@,
            ) {
                Option::None => r == Result::Err::<(), HostError>(HostError::ExportMissing),
                Option::Some(false) => r == Result::Err::<(), HostError>(
                    HostError::ExportNotCallable,
                ),
                Option::Some(true) => r is Ok,
            }),
    {
        match self.phase {
            HostPhase::Evaluated => {},
            _ => {
                return Result::Err(HostError::ExportMissing);
            },
        }
        let ghost em = self.exports_model();
        proof {
            assert(em.skip(0) =~= em);
        }
        let mut i: usize = 0;
        while i < self.exports.len()
            invariant
                self.phase() == HostPhase::Evaluated,
                i <= self.exports.len(),
                em == self.exports_model(),
                em.len() == self.exports.len(),
                forall|j: int| 0 <= j < self.exports@.len() ==> em[j] == (
                    self.exports@[j].name@,
                    self.exports@[j].callable,
                ),
                export_of(em, name@) == export_of(em.skip(i as int), name@),
            decreases self.exports.len() - i,
        {
            if self.exports[i].name == name.to_owned() {
                proof {
                    assert(em.skip(i as int)[0] == em[i as int]);
                }
                if self.exports[i].callable {
                    return Result::Ok(());
                } else {
                    return Result::Err(HostError::ExportNotCallable);
                }
            }
            proof {
                assert(em.skip(i as int)[0] == em[i as int]);
                assert(em.skip(i as int).drop_first() =~= em.skip(i + 1));
            }
            i = i + 1;
        }
        proof {
            assert(em.skip(self.exports@.len() as int).len() == 0);
        }
        Result::Err(HostError::ExportMissing)
    }
}

/// Settles an export invocation: the returned value passes through
/// untouched; a throw is a call error.
pub fn settle_call(outcome: CallOutcome) -> (r: Result<Value, HostError>)
    ensures
        (match outcome {
            CallOutcome::Returned(v) => r == Result::Ok::<Value, HostError>(v),
            CallOutcome::Threw => r == Result::Err::<Value, HostError>(HostError::CallFailed),
        }),
{
    match outcome {
        CallOutcome::Returned(v) => Result::Ok(v),
        CallOutcome::Threw => Result::Err(HostError::CallFailed),
    }
}

/// The spec view of a parameter record: each entry becomes a numeric
/// field.
pub open spec fn param_fields(s: Seq<(String, i64)>) -> Seq<(Seq<char>, ValueModel)> {
    Seq::new(s.len(), |i: int| (s[i].0@, ValueModel::Num(s[i].1 as int)))
}

/// Builds the single structured record of numeric parameters handed to
/// the export: one field per entry, in order, values in millionths.
pub fn params_record(entries: Vec<(String, i64)>) -> (v: Value)
    ensures
        value_model(v) == ValueModel::Obj(param_fields(entries@)),
{
    let ghost target = param_fields(entries@);
    let mut fields: Vec<(String, Value)> = Vec::new();
    let mut i: usize = 0;
    while i < entries.len()
        invariant
            i <= entries.len(),
            target == param_fields(entries@),
            target.len() == entries@.len(),
            forall|j: int| 0 <= j < entries@.len() ==> target[j] == (
                entries@[j].0@,
                ValueModel::Num(entries@[j].1 as int),
            ),
            fields@.len() == i,
            fields_model(fields@) == target.subrange(0, i as int),
        decreases entries.len() - i,
    {
        let ghost old_fields = fields@;
        let (name, value) = (entries[i].0.clone(), entries[i].1);
        fields.push((name, Value::Num(value)));
        proof {
            lemma_fields_model_index(fields@);
            lemma_fields_model_index(old_fields);
            assert(fields@.drop_last() =~= old_fields);
            assert(fields_model(fields@) =~= target.subrange(0, i + 1));
        }
        i = i + 1;
    }
    proof {
        assert(target.subrange(0, entries@.len() as int) =~= target);
    }
    Value::Obj(fields)
}

} // verus!