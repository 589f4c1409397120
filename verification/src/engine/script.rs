//! The scripts the engine runs around a workflow, and which module an import
//! means.

use vstd::prelude::*;

use crate::text;

verus! {

// ── Scripts ──

/// The module that installs the workflow functions as globals. It holds plain
/// ASCII, as extension sources must.
pub const PRELUDE: &'static str = r#"
import {
  op_agent,
  op_phase,
  op_log,
  op_get_args,
  op_set_result,
  op_set_error,
  op_meta,
  op_budget_total,
  op_budget_spent,
} from "ext:core/ops";

const RETURN_CONVENTION =
  "\n\nYour final message IS the return value consumed by a program. " +
  "Output raw data only - no preamble, no prose, no markdown fences.";

let agentSeq = 0;
globalThis.__currentStep = null;
globalThis.args = op_get_args();

// One agent. Under a schema the answer arrives parsed; otherwise it is text, and
// the prompt says that the final message is the return value.
globalThis.agent = async function agent(prompt, opts = {}) {
  if (typeof prompt !== "string" || prompt.length === 0) {
    throw new TypeError("agent(prompt): prompt must be a non-empty string");
  }
  const o = opts ?? {};
  if (o.group != null && (typeof o.group !== "string" || o.group.length === 0)) {
    throw new TypeError("agent opts: group must be a non-empty string");
  }
  const id = ++agentSeq;
  const schema = o.schema == null ? null : JSON.stringify(o.schema);
  const text = await op_agent({
    id,
    label: o.label == null ? `agent-${id}` : String(o.label),
    step: Number(o.step ?? globalThis.__currentStep ?? 0),
    prompt: schema === null ? prompt + RETURN_CONVENTION : prompt,
    model: o.model ?? null,
    sandbox: o.sandbox ?? null,
    schema,
    cwd: o.cwd ?? null,
    isolate: o.isolate === true || o.isolation === "worktree",
    timeout_ms: o.timeoutMs ?? null,
    agent_type: o.agentType ?? null,
    group: o.group ?? null,
  });
  return schema === null ? text : JSON.parse(text);
};

// Run thunks together and wait for all; one that fails becomes null.
globalThis.parallel = async function parallel(thunks) {
  if (!Array.isArray(thunks)) {
    throw new TypeError("parallel(thunks): expected an array of functions");
  }
  return await Promise.all(
    thunks.map(async (t) => {
      try {
        return await t();
      } catch (_) {
        return null;
      }
    }),
  );
};

// Send each item through all stages on its own; one that fails becomes null.
globalThis.pipeline = async function pipeline(items, ...stages) {
  if (!Array.isArray(items)) {
    throw new TypeError("pipeline(items, ...stages): expected an array of items");
  }
  return await Promise.all(
    items.map(async (item, index) => {
      try {
        let value = item;
        for (const stage of stages) {
          value = await stage(value, item, index);
        }
        return value;
      } catch (_) {
        return null;
      }
    }),
  );
};

// One global slot: concurrent branches pass { step } to agent() themselves.
globalThis.phase = function phase(title) {
  const step = Number(op_phase(String(title)));
  globalThis.__currentStep = step;
  return step;
};

globalThis.log = function log(message) {
  op_log(String(message));
};

globalThis.budget = Object.freeze({
  total: op_budget_total(),
  spent() {
    return op_budget_spent();
  },
  remaining() {
    return this.total === null ? Infinity : Math.max(0, this.total - op_budget_spent());
  },
});

globalThis.__meta = (m) => op_meta(m);
globalThis.__setResult = (v) => op_set_result(v === undefined ? null : v);
globalThis.__setError = (e) => op_set_error(String(e));
"#;

/// The main module: it imports the workflow, declares its phases, runs its entry
/// point and hands the outcome back. The entry is the default export, or `run`,
/// or `workflow`; it may be a function, a promise or a plain value.
pub const BOOTSTRAP: &'static str = r#"
import * as user from "workflow:main";
try {
  // Pre-declare the phase skeleton from `export const meta` (if any) before the
  // workflow runs. Defensive normalization: a name-only
  // meta still surfaces its name, and a non-string title degrades to "" instead
  // of failing deserialization at startup.
  const m = user.meta;
  if (m && typeof m === "object") {
    const phases = Array.isArray(m.phases)
      ? m.phases.map((p) =>
          typeof p === "string" ? p : p && typeof p.title === "string" ? p.title : "")
      : [];
    globalThis.__meta({ name: typeof m.name === "string" ? m.name : "", phases });
  }
  const entry = user.default ?? user.run ?? user.workflow;
  let result;
  if (typeof entry === "function") {
    result = await entry(globalThis.args);
  } else if (entry && typeof entry.then === "function") {
    result = await entry;
  } else if (entry !== undefined) {
    result = entry;
  } else {
    throw new Error("workflow.js must `export default` an async function (or `export function run()`)");
  }
  globalThis.__setResult(result);
} catch (e) {
  globalThis.__setError(e && e.stack ? e.stack : String(e));
}
"#;

/// The source of the prelude module.
pub fn prelude_source() -> (r: String)
    ensures
        r@ == PRELUDE@,
{
    text::copied(PRELUDE)
}

/// The source of the bootstrap module.
pub fn bootstrap_source() -> (r: String)
    ensures
        r@ == BOOTSTRAP@,
{
    text::copied(BOOTSTRAP)
}

// ── Imports ──

/// The virtual name of the workflow file.
pub const MAIN: &'static str = "workflow:main";

/// The virtual name of the bootstrap module.
pub const BOOT: &'static str = "workflow:bootstrap";

/// Which module an import means.
#[derive(Debug, Clone, Copy, PartialEq, Eq, Structural)]
pub enum Import {
    /// The workflow file itself.
    Workflow,
    /// The bootstrap module.
    Bootstrap,
    /// Whatever the specifier names, seen from the workflow file.
    FromWorkflow,
    /// Whatever the specifier names, seen from the importing module.
    FromReferrer,
}

/// Which module an import means. The virtual names are fixed; what a virtual
/// module imports is looked up beside the workflow file.
pub open spec fn import_of(specifier: Seq<char>, referrer: Seq<char>) -> Import {
    if specifier == MAIN@ {
        Import::Workflow
    } else if specifier == BOOT@ {
        Import::Bootstrap
    } else if text::starts_with(referrer, "workflow:"@) {
        Import::FromWorkflow
    } else {
        Import::FromReferrer
    }
}

/// Which module an import means.
pub fn resolve(specifier: &str, referrer: &str) -> (r: Import)
    ensures
        r == import_of(specifier@, referrer@),
{
    if text::same_text(specifier, MAIN) {
        Import::Workflow
    } else if text::same_text(specifier, BOOT) {
        Import::Bootstrap
    } else if text::text_starts_with(referrer, "workflow:") {
        Import::FromWorkflow
    } else {
        Import::FromReferrer
    }
}

/// The source served for a module without looking at any file, if it is such a
/// module.
pub fn virtual_source(specifier: &str) -> (r: Option<String>)
    ensures
        text::opt_text(r) == if specifier@ == BOOT@ {
            Some(BOOTSTRAP@)
        } else {
            None
        },
{
    if text::same_text(specifier, BOOT) {
        Some(bootstrap_source())
    } else {
        None
    }
}

/// The two virtual names mean the same from everywhere, and are told apart;
/// anything else is looked up beside the workflow when a virtual module asks for
/// it, and beside the asking module otherwise.
pub proof fn law_imports_are_told_apart(
    specifier: Seq<char>,
    rest: Seq<char>,
    referrer: Seq<char>,
    other: Seq<char>,
)
    ensures
        import_of(MAIN@, referrer) == Import::Workflow,
        import_of(BOOT@, referrer) == Import::Bootstrap,
        specifier != MAIN@ && specifier != BOOT@ ==> import_of(specifier, "workflow:"@ + rest)
            == Import::FromWorkflow,
        specifier != MAIN@ && specifier != BOOT@ && import_of(specifier, other)
            != Import::FromReferrer ==> text::starts_with(other, "workflow:"@),
        import_of(specifier, referrer) == Import::Workflow ==> specifier == MAIN@,
        import_of(specifier, referrer) == Import::Bootstrap ==> specifier == BOOT@,
{
    reveal_strlit("workflow:main");
    reveal_strlit("workflow:bootstrap");
    assert(MAIN@.len() == 13 && BOOT@.len() == 18);
    text::laws::law_part_is_contained(rest, "workflow:"@, rest);
}

} // verus!
