//! The request logic shared by the HTTP, GraphQL and MCP surfaces: turning
//! registration payloads into vigies and paging listings.

use vstd::prelude::*;
use vstd::string::{StrSliceExecFns, StringExecFns};
use crate::error::Error;
use crate::id::spec_vigy_id;
use crate::label::{key_error, Labels};
use crate::store::{strs_view, vigies_view};
use crate::text::find;
use crate::vigy::{blank_program, TickInterval, Vigy, VigyView, MIN_TICK_INTERVAL_MS};

verus! {

/// Default tick interval of a registration, in milliseconds.
pub fn default_tick_ms() -> (r: u64)
    ensures
        r == 1000,
{
    1000
}

/// Registrations are enabled unless they say otherwise.
pub fn default_true() -> (r: bool)
    ensures
        r,
{
    true
}

/// A registration request.
#[derive(Debug, Clone)]
pub struct RegisterPayload {
    pub name: String,
    pub program: String,
    pub tick_interval_ms: u64,
    pub enabled: bool,
    pub labels: Labels,
}

/// An update request (accepted; the vigy is served back unchanged).
#[derive(Debug, Clone)]
pub struct UpdatePayload {
    pub program: Option<String>,
    pub tick_interval_ms: Option<u64>,
    pub labels: Option<Labels>,
}

/// The body of an error response.
#[derive(Debug, Clone)]
pub struct ErrorBody {
    pub error: String,
}

/// Query parameters of a listing.
#[derive(Debug, Clone)]
pub struct ListQuery {
    pub label_selector: Option<String>,
    pub limit: Option<u32>,
}

/// The first `limit` of `s`, or all of `s` when it is shorter.
pub open spec fn first_n<T>(s: Seq<T>, limit: int) -> Seq<T> {
    if 0 <= limit < s.len() {
        s.take(limit)
    } else {
        s
    }
}

/// The first `limit` vigies of `v` (all of them when it is shorter).
pub fn truncate_to(v: Vec<Vigy>, limit: u64) -> (r: Vec<Vigy>)
    ensures
        vigies_view(r@) == first_n(vigies_view(v@), limit as int),
{
    let mut v = v;
    let ghost before = v@;
    if (v.len() as u64) > limit {
        v.truncate(limit as usize);
        assert(vigies_view(v@) =~= vigies_view(before).take(limit as int));
    }
    v
}

impl RegisterPayload {
    /// The vigy a registration asks for: the interval is checked first, then
    /// the program; the vigy takes the payload's enabled flag and labels.
    pub fn into_vigy(self) -> (r: Result<Vigy, Error>)
        ensures
            self.tick_interval_ms < MIN_TICK_INTERVAL_MS ==> r == Err::<Vigy, Error>(
                Error::InvalidTickInterval { ms: self.tick_interval_ms },
            ),
            self.tick_interval_ms >= MIN_TICK_INTERVAL_MS && blank_program(self.program@) ==> r
                == Err::<Vigy, Error>(Error::EmptyProgram),
            self.tick_interval_ms >= MIN_TICK_INTERVAL_MS && !blank_program(self.program@) ==> (
            r matches Ok(v) && v.id@ == spec_vigy_id(self.name@, self.program@) && v.name@
                == self.name@ && v.program@ == self.program@ && v.tick_interval.spec_ms()
                == self.tick_interval_ms && v.enabled == self.enabled && v.labels@
                == self.labels@),
    {
        let interval = match TickInterval::from_millis(self.tick_interval_ms) {
            Ok(t) => t,
            Err(e) => return Err(e),
        };
        let mut v = match Vigy::new(self.name, self.program, interval) {
            Ok(v) => v,
            Err(e) => return Err(e),
        };
        v.enabled = self.enabled;
        v.labels = self.labels;
        Ok(v)
    }
}

impl ListQuery {
    /// The listing cut to the query's limit.
    pub fn apply_limit(&self, all: Vec<Vigy>) -> (r: Vec<Vigy>)
        ensures
            match self.limit {
                Some(n) => vigies_view(r@) == first_n(vigies_view(all@), n as int),
                None => vigies_view(r@) == vigies_view(all@),
            },
    {
        match self.limit {
            Some(n) => truncate_to(all, n as u64),
            None => all,
        }
    }
}

/// The GraphQL query root.
#[derive(Debug, Clone, Copy)]
pub struct Query;

impl Query {
    /// The `vigies` listing cut to `limit`; a negative limit cuts nothing.
    pub fn vigies_page(all: Vec<Vigy>, limit: Option<i32>) -> (r: Vec<Vigy>)
        ensures
            match limit {
                Some(n) => vigies_view(r@) == first_n(vigies_view(all@), n as int),
                None => vigies_view(r@) == vigies_view(all@),
            },
    {
        match limit {
            Some(n) => {
                if n < 0 {
                    all
                } else {
                    truncate_to(all, n as u64)
                }
            },
            None => all,
        }
    }
}

/// The MCP tools vigy offers.
#[derive(Debug, Clone, Copy, PartialEq, Eq, Structural)]
pub enum McpTool {
    Register,
    List,
    Inspect,
    Tick,
    Enable,
    Disable,
    Delete,
}

/// The tool a name stands for.
pub open spec fn spec_tool(s: Seq<char>) -> Option<McpTool> {
    if s == "vigy_register"@ {
        Some(McpTool::Register)
    } else if s == "vigy_list"@ {
        Some(McpTool::List)
    } else if s == "vigy_inspect"@ {
        Some(McpTool::Inspect)
    } else if s == "vigy_tick"@ {
        Some(McpTool::Tick)
    } else if s == "vigy_enable"@ {
        Some(McpTool::Enable)
    } else if s == "vigy_disable"@ {
        Some(McpTool::Disable)
    } else if s == "vigy_delete"@ {
        Some(McpTool::Delete)
    } else {
        None
    }
}

/// Each MCP tool name dispatches to the tool of that name and to no other:
/// a text names a tool exactly when it is that tool's `vigy_*` name, and
/// every other text names none.
pub proof fn law_tool_names(s: Seq<char>)
    ensures
        spec_tool(s) == Some(McpTool::Register) <==> s == "vigy_register"@,
        spec_tool(s) == Some(McpTool::List) <==> s == "vigy_list"@,
        spec_tool(s) == Some(McpTool::Inspect) <==> s == "vigy_inspect"@,
        spec_tool(s) == Some(McpTool::Tick) <==> s == "vigy_tick"@,
        spec_tool(s) == Some(McpTool::Enable) <==> s == "vigy_enable"@,
        spec_tool(s) == Some(McpTool::Disable) <==> s == "vigy_disable"@,
        spec_tool(s) == Some(McpTool::Delete) <==> s == "vigy_delete"@,
{
    reveal_strlit("vigy_register");
    reveal_strlit("vigy_list");
    reveal_strlit("vigy_inspect");
    reveal_strlit("vigy_tick");
    reveal_strlit("vigy_enable");
    reveal_strlit("vigy_disable");
    reveal_strlit("vigy_delete");
    assert("vigy_register"@.len() == 13);
    assert("vigy_list"@.len() == 9);
    assert("vigy_inspect"@.len() == 12);
    assert("vigy_tick"@.len() == 9);
    assert("vigy_enable"@.len() == 11);
    assert("vigy_disable"@.len() == 12);
    assert("vigy_delete"@.len() == 11);
    assert("vigy_list"@[5] != "vigy_tick"@[5]);
    assert("vigy_enable"@[5] != "vigy_delete"@[5]);
    assert("vigy_inspect"@[5] != "vigy_disable"@[5]);
}

fn is_name(cs: &Vec<char>, w: &str) -> (r: bool)
    ensures
        r == (cs@ == w@),
{
    let wc = crate::text::chars_of(w);
    crate::text::chars_eq(cs.as_slice(), wc.as_slice())
}

impl McpTool {
    /// The tool named `name`, if any.
    pub fn parse(name: &str) -> (r: Option<McpTool>)
        ensures
            r == spec_tool(name@),
    {
        let cs = crate::text::chars_of(name);
        if is_name(&cs, "vigy_register") {
            Some(McpTool::Register)
        } else if is_name(&cs, "vigy_list") {
            Some(McpTool::List)
        } else if is_name(&cs, "vigy_inspect") {
            Some(McpTool::Inspect)
        } else if is_name(&cs, "vigy_tick") {
            Some(McpTool::Tick)
        } else if is_name(&cs, "vigy_enable") {
            Some(McpTool::Enable)
        } else if is_name(&cs, "vigy_disable") {
            Some(McpTool::Disable)
        } else if is_name(&cs, "vigy_delete") {
            Some(McpTool::Delete)
        } else {
            None
        }
    }
}

/// Why an MCP request was refused.
#[derive(Debug)]
pub enum McpError {
    /// A required argument is absent.
    MissingArgument { name: &'static str },
    /// A domain validation error.
    Types(Error),
}

/// The labels of `base` with the string-valued `pairs` inserted in order,
/// or the first key error.
pub open spec fn insert_labels(
    base: Map<Seq<char>, Seq<char>>,
    pairs: Seq<(Seq<char>, Option<Seq<char>>)>,
) -> Result<Map<Seq<char>, Seq<char>>, (Seq<char>, &'static str)>
    decreases pairs.len(),
{
    if pairs.len() == 0 {
        Ok(base)
    } else {
        match insert_labels(base, pairs.drop_last()) {
            Err(e) => Err(e),
            Ok(m) => match pairs.last().1 {
                None => Ok(m),
                Some(v) => match key_error(pairs.last().0) {
                    Some(reason) => Err((pairs.last().0, reason)),
                    None => Ok(m.insert(pairs.last().0, v)),
                },
            },
        }
    }
}

/// The views of label arguments.
pub open spec fn label_args_view(s: Seq<(String, Option<String>)>) -> Seq<(Seq<char>, Option<Seq<char>>)> {
    s.map_values(|x: (String, Option<String>)| (x.0@, crate::action::opt_str_view(x.1)))
}

/// The vigy a `vigy_register` call asks for. `name` and `program` are
/// required; the interval defaults to one second; `enabled` overrides the
/// default; each label whose value is a string is inserted in order.
pub fn register_from_args(
    name: Option<String>,
    program: Option<String>,
    tick_interval_ms: Option<u64>,
    enabled: Option<bool>,
    labels: Vec<(String, Option<String>)>,
) -> (r: Result<Vigy, McpError>)
    ensures
        name is None ==> (r matches Err(McpError::MissingArgument { name: n }) && n == "name"),
        name is Some && program is None ==> (r matches Err(McpError::MissingArgument { name: n })
            && n == "program"),
        name is Some && program is Some ==> {
            let nm = name->Some_0;
            let pg = program->Some_0;
            let every = match tick_interval_ms {
                Some(ms) => ms,
                None => 1000,
            };
            &&& every < MIN_TICK_INTERVAL_MS ==> (r matches Err(
                McpError::Types(Error::InvalidTickInterval { ms }),
            ) && ms == every)
            &&& every >= MIN_TICK_INTERVAL_MS && blank_program(pg@) ==> (r matches Err(
                McpError::Types(Error::EmptyProgram),
            ))
            &&& every >= MIN_TICK_INTERVAL_MS && !blank_program(pg@) ==> match insert_labels(
                Map::empty(),
                label_args_view(labels@),
            ) {
                Err((key, reason)) => r matches Err(
                    McpError::Types(Error::InvalidLabelKey { key: k, reason: rr }),
                ) && k@ == key && rr == reason,
                Ok(m) => r matches Ok(v) && v.id@ == spec_vigy_id(nm@, pg@) && v.name@ == nm@
                    && v.program@ == pg@ && v.tick_interval.spec_ms() == every && v.enabled
                    == match enabled {
                    Some(b) => b,
                    None => true,
                } && v.labels@ == m,
            }
        },
{
    let ghost n_ghost = name->Some_0;
    let ghost p_ghost = program->Some_0;
    let n = match name {
        Some(n) => n,
        None => return Err(McpError::MissingArgument { name: "name" }),
    };
    let p = match program {
        Some(p) => p,
        None => return Err(McpError::MissingArgument { name: "program" }),
    };
    let every = match tick_interval_ms {
        Some(ms) => ms,
        None => 1000,
    };
    let interval = match TickInterval::from_millis(every) {
        Ok(t) => t,
        Err(e) => return Err(McpError::Types(e)),
    };
    let mut vigy = match Vigy::new(n, p, interval) {
        Ok(v) => v,
        Err(e) => return Err(McpError::Types(e)),
    };
    match enabled {
        Some(b) => {
            vigy.enabled = b;
        },
        None => {},
    }
    let ghost lv = label_args_view(labels@);
    let mut i: usize = 0;
    assert(lv.take(0) =~= Seq::<(Seq<char>, Option<Seq<char>>)>::empty());
    while i < labels.len()
        invariant
            i <= labels@.len(),
            lv == label_args_view(labels@),
            name == Some(n_ghost),
            program == Some(p_ghost),
            n@ == n_ghost@,
            p@ == p_ghost@,
            every == match tick_interval_ms {
                Some(ms) => ms,
                None => 1000u64,
            },
            every >= MIN_TICK_INTERVAL_MS,
            !blank_program(p_ghost@),
            insert_labels(Map::empty(), lv.take(i as int)) == Ok::<
                Map<Seq<char>, Seq<char>>,
                (Seq<char>, &'static str),
            >(vigy.labels@),
            vigy.id@ == spec_vigy_id(n@, p@),
            vigy.name@ == n@,
            vigy.program@ == p@,
            vigy.tick_interval.spec_ms() == every,
            vigy.enabled == match enabled {
                Some(b) => b,
                None => true,
            },
        decreases labels@.len() - i,
    {
        assert(lv.take(i + 1).drop_last() =~= lv.take(i as int));
        assert(lv.take(i + 1).last() == lv[i as int]);
        match &labels[i].1 {
            Some(val) => {
                match vigy.labels.insert(labels[i].0.as_str(), val.as_str()) {
                    Ok(()) => {},
                    Err(e) => {
                        proof {
                            lemma_insert_labels_err(Map::empty(), lv, i as int + 1);
                        }
                        return Err(McpError::Types(e));
                    },
                }
            },
            None => {},
        }
        i += 1;
    }
    assert(lv.take(i as int) =~= lv);
    Ok(vigy)
}

/// Once a prefix fails, the whole list fails the same way.
proof fn lemma_insert_labels_err(
    base: Map<Seq<char>, Seq<char>>,
    pairs: Seq<(Seq<char>, Option<Seq<char>>)>,
    k: int,
)
    requires
        0 <= k <= pairs.len(),
        insert_labels(base, pairs.take(k)) is Err,
    ensures
        insert_labels(base, pairs) == insert_labels(base, pairs.take(k)),
    decreases pairs.len() - k,
{
    if k < pairs.len() {
        assert(pairs.take(k + 1).drop_last() =~= pairs.take(k));
        lemma_insert_labels_err(base, pairs, k + 1);
    } else {
        assert(pairs.take(k) =~= pairs);
    }
}

/// Why a `k=v` label argument was refused.
#[derive(Debug)]
pub enum LabelArgError {
    /// The argument holds no `=`.
    NotKeyValue { arg: String },
    /// The key failed validation.
    Types(Error),
}

/// The labels of `base` with each `k=v` argument inserted in order (split at
/// the first `=`), or the first refusal: the argument with no reason when it
/// holds no `=`, the key with its reason when the key is invalid.
pub open spec fn label_args_result(base: Map<Seq<char>, Seq<char>>, args: Seq<Seq<char>>) -> Result<
    Map<Seq<char>, Seq<char>>,
    (Seq<char>, Option<&'static str>),
>
    decreases args.len(),
{
    if args.len() == 0 {
        Ok(base)
    } else {
        match label_args_result(base, args.drop_last()) {
            Err(e) => Err(e),
            Ok(m) => {
                let a = args.last();
                match find(a, '=') {
                    None => Err((a, None)),
                    Some(i) => match key_error(a.take(i)) {
                        Some(reason) => Err((a.take(i), Some(reason))),
                        None => Ok(m.insert(a.take(i), a.skip(i + 1))),
                    },
                }
            },
        }
    }
}

/// `s` split at its first `=`: the text before it and the text after.
fn split_at_eq(s: &str) -> (r: Option<(String, String)>)
    ensures
        match find(s@, '=') {
            None => r is None,
            Some(i) => r matches Some(p) && p.0@ == s@.take(i) && p.1@ == s@.skip(i + 1),
        },
{
    let cs = crate::text::chars_of(s);
    match crate::text::find_char(cs.as_slice(), '=') {
        None => None,
        Some(i) => {
            let n = cs.len();
            let k = s.substring_char(0, i);
            let v = s.substring_char(i + 1, n);
            assert(k@ =~= s@.take(i as int));
            assert(v@ =~= s@.skip(i + 1));
            Some((String::from_str(k), String::from_str(v)))
        },
    }
}

/// Adds `k=v` label arguments to `labels` in order. On a refusal the labels
/// keep what the arguments before it added.
pub fn add_label_args(labels: &mut Labels, args: &Vec<String>) -> (r: Result<(), LabelArgError>)
    ensures
        match label_args_result(old(labels)@, strs_view(args@)) {
            Ok(m) => r is Ok && final(labels)@ == m,
            Err((text, None)) => r matches Err(LabelArgError::NotKeyValue { arg }) && arg@ == text,
            Err((key, Some(reason))) => r matches Err(
                LabelArgError::Types(Error::InvalidLabelKey { key: k, reason: rr }),
            ) && k@ == key && rr == reason,
        },
{
    let ghost base = labels@;
    let ghost av = strs_view(args@);
    let mut i: usize = 0;
    assert(av.take(0) =~= Seq::<Seq<char>>::empty());
    while i < args.len()
        invariant
            i <= args@.len(),
            av == strs_view(args@),
            base == old(labels)@,
            label_args_result(base, av.take(i as int)) == Ok::<
                Map<Seq<char>, Seq<char>>,
                (Seq<char>, Option<&'static str>),
            >(labels@),
        decreases args@.len() - i,
    {
        assert(av.take(i + 1).drop_last() =~= av.take(i as int));
        assert(av.take(i + 1).last() == args@[i as int]@);
        match split_at_eq(args[i].as_str()) {
            None => {
                proof {
                    lemma_label_args_err(base, av, i as int + 1);
                }
                return Err(LabelArgError::NotKeyValue { arg: args[i].clone() });
            },
            Some((k, v)) => {
                match labels.insert(k.as_str(), v.as_str()) {
                    Ok(()) => {},
                    Err(e) => {
                        proof {
                            lemma_label_args_err(base, av, i as int + 1);
                        }
                        return Err(LabelArgError::Types(e));
                    },
                }
            },
        }
        i += 1;
    }
    assert(av.take(i as int) =~= av);
    Ok(())
}

/// Once a prefix of the arguments is refused, all of them are, the same way.
proof fn lemma_label_args_err(base: Map<Seq<char>, Seq<char>>, args: Seq<Seq<char>>, k: int)
    requires
        0 <= k <= args.len(),
        label_args_result(base, args.take(k)) is Err,
    ensures
        label_args_result(base, args) == label_args_result(base, args.take(k)),
    decreases args.len() - k,
{
    if k < args.len() {
        assert(args.take(k + 1).drop_last() =~= args.take(k));
        lemma_label_args_err(base, args, k + 1);
    } else {
        assert(args.take(k) =~= args);
    }
}

} // verus!
