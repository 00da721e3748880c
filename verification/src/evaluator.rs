//! The runtime environment: the variable store with its synthetic metadata,
//! the interpolation engine, the argument resolver, and the dispatcher that
//! invokes built-in operations or dynamically loaded function scripts.

use vstd::prelude::*;
use vstd::slice::slice_subrange;
use vstd::string::{StrSliceExecFns, StringExecFns};
use crate::ast::{
    ArgV, Param, ParamV, ResolvedArg, Statement, args_view, params_view, stmt_height, stmts_height,
};
use crate::error::BuclError;
use crate::functions::Builtin;
use crate::store::{EntryV, VarStore, map_of};
use crate::text::{
    self, contains_char, dec_rep, dec_val, find_char, first_idx, join_seqs, last_seg, lex_lt,
    parse_usize, parses_as_usize, seq_views, str_chars, str_eq, string_of, usize_to_dec,
};

verus! {

/// How deep nested variable references and dynamic name resolution may
/// recurse. A reference chain deeper than this resolves to the empty string
/// instead of recursing further.
pub const RESOLVE_FUEL: usize = 64;

/// How deep dynamically loaded function calls may nest. A deeper call fails
/// with a runtime error instead of recursing further.
pub const CALL_DEPTH: usize = 64;

// ---------------------------------------------------------------------------
// What resolution means
// ---------------------------------------------------------------------------

/// The `count` metadata key of a variable.
pub open spec fn count_key(name: Seq<char>) -> Seq<char> {
    name + "/count"@
}

/// The `length` metadata key of a variable.
pub open spec fn length_key(name: Seq<char>) -> Seq<char> {
    name + "/length"@
}

/// The key of the `i`-th element of a variable.
pub open spec fn index_key(name: Seq<char>, i: nat) -> Seq<char> {
    name + "/"@ + dec_rep(i)
}

/// What one store writes: the value itself, plus `count` and `length`
/// metadata when the name is a root name.
pub open spec fn set_map(m: Map<Seq<char>, Seq<char>>, name: Seq<char>, value: Seq<char>) -> Map<
    Seq<char>,
    Seq<char>,
> {
    if name.contains('/') {
        m.insert(name, value)
    } else {
        m.insert(length_key(name), dec_rep(value.len())).insert(count_key(name), "1"@).insert(
            name,
            value,
        )
    }
}

/// The element count of a variable: its `count` metadata parsed as a number,
/// zero when absent or unreadable.
pub open spec fn spec_count(m: Map<Seq<char>, Seq<char>>, name: Seq<char>) -> nat {
    if m.contains_key(count_key(name)) && parses_as_usize(m[count_key(name)]) {
        dec_val(m[count_key(name)])
    } else {
        0
    }
}

/// Plain resolution of a name without nested references: the stored value;
/// else, for a numeric suffix on a single-value variable, the indexed
/// character of the parent's value; else the empty string.
pub open spec fn spec_resolve_plain(m: Map<Seq<char>, Seq<char>>, name: Seq<char>) -> Seq<char> {
    if m.contains_key(name) {
        m[name]
    } else {
        let si = first_idx(name, '/');
        if si < name.len() {
            let parent = name.subrange(0, si);
            let idx = name.subrange(si + 1, name.len() as int);
            if parses_as_usize(idx) {
                if spec_count(m, parent) == 1 && m.contains_key(parent) && dec_val(idx)
                    < m[parent].len() {
                    seq![m[parent][dec_val(idx) as int]]
                } else {
                    Seq::empty()
                }
            } else {
                Seq::empty()
            }
        } else {
            Seq::empty()
        }
    }
}

/// The elements `name/0 .. name/(c-1)`, absent ones as empty strings.
pub open spec fn spec_elems(m: Map<Seq<char>, Seq<char>>, name: Seq<char>, c: nat) -> Seq<
    Seq<char>,
> {
    Seq::new(c, |i: int| if m.contains_key(index_key(name, i as nat)) {
        m[index_key(name, i as nat)]
    } else {
        Seq::empty()
    })
}

/// A multi-element variable rendered in string context: its elements joined
/// with single spaces.
pub open spec fn spec_implode(m: Map<Seq<char>, Seq<char>>, name: Seq<char>, c: nat) -> Seq<char> {
    join_seqs(spec_elems(m, name, c), " "@)
}

/// Interpolation of `{...}` spans in a template, with nested-brace tracking.
/// An unterminated span renders literally, prefixed with its opening brace.
/// The fuel bounds how deep dynamic references recurse; a deeper chain
/// renders as the empty string.
pub open spec fn spec_interp(m: Map<Seq<char>, Seq<char>>, s: Seq<char>, fuel: nat) -> Seq<char>
    decreases fuel, s.len(), 0int,
    via spec_interp_dec
{
    if s.len() == 0 {
        Seq::empty()
    } else if s[0] != '{' {
        seq![s[0]] + spec_interp(m, s.drop_first(), fuel)
    } else {
        match text::brace_close(s.skip(1), 0) {
            Some(j) => spec_interp_name(m, s.subrange(1, 1 + j as int), fuel) + spec_interp(
                m,
                s.skip(2 + j as int),
                fuel,
            ),
            None => seq!['{'] + s.skip(1),
        }
    }
}

#[via_fn]
proof fn spec_interp_dec(m: Map<Seq<char>, Seq<char>>, s: Seq<char>, fuel: nat) {
    if s.len() > 0 && s[0] == '{' {
        text::lemma_brace_close_bound(s.skip(1), 0);
    }
}

/// A variable reference inside a quoted template: the inner name is first
/// interpolated if it contains `{`; a root-level name with more than one
/// element auto-implodes to space-joined text; everything else falls through
/// to ordinary resolution.
pub open spec fn spec_interp_name(m: Map<Seq<char>, Seq<char>>, name: Seq<char>, fuel: nat) -> Seq<
    char,
>
    decreases fuel, name.len(), 1int,
{
    let rn = if name.contains('{') {
        spec_interp(m, name, fuel)
    } else {
        name
    };
    if !rn.contains('/') && spec_count(m, rn) > 1 {
        spec_implode(m, rn, spec_count(m, rn))
    } else {
        if fuel == 0 {
            Seq::empty()
        } else {
            spec_resolve(m, rn, (fuel - 1) as nat)
        }
    }
}

/// Resolution of a variable name: a name containing `{` is first resolved by
/// interpolation, then looked up again; otherwise plain resolution applies.
pub open spec fn spec_resolve(m: Map<Seq<char>, Seq<char>>, name: Seq<char>, fuel: nat) -> Seq<
    char,
>
    decreases fuel, name.len(), 2int,
{
    if name.contains('{') {
        if fuel == 0 {
            Seq::empty()
        } else {
            spec_resolve(m, spec_interp(m, name, fuel), (fuel - 1) as nat)
        }
    } else {
        spec_resolve_plain(m, name)
    }
}

// ---------------------------------------------------------------------------
// What argument resolution means
// ---------------------------------------------------------------------------

/// The names the calling convention reserves; they never become derived
/// parameter names.
pub open spec fn reserved_name(s: Seq<char>) -> bool {
    s == "argc"@ || s == "args"@ || s == "target"@ || s == "return"@ || s == "count"@ || s
        == "length"@
}

/// The derived parameter name of a variable path: its last slash segment,
/// unless that is empty, numeric, or reserved.
pub open spec fn spec_extract_param_name(name: Seq<char>) -> Option<Seq<char>> {
    let base = last_seg(name);
    if base.len() == 0 || parses_as_usize(base) || reserved_name(base) {
        None
    } else {
        Some(base)
    }
}

/// Whether a stored key is a named sub-variable of `parent`: directly below
/// it, with a suffix that is neither metadata, nor numeric, nor nested.
pub open spec fn valid_sub_key(parent: Seq<char>, key: Seq<char>) -> bool {
    let plen = parent.len() + 1;
    &&& key.len() >= plen
    &&& key.subrange(0, plen as int) == parent + "/"@
    &&& !key.skip(plen as int).contains('/')
    &&& key.skip(plen as int) != "count"@
    &&& key.skip(plen as int) != "length"@
    &&& !parses_as_usize(key.skip(plen as int))
}

/// The named sub-variables of `parent`, in storage order, as
/// (suffix, value) pairs.
pub open spec fn filter_subs(es: Seq<EntryV>, parent: Seq<char>) -> Seq<(Seq<char>, Seq<char>)>
    decreases es.len(),
{
    if es.len() == 0 {
        Seq::empty()
    } else {
        filter_subs(es.drop_last(), parent) + if valid_sub_key(parent, es.last().0) {
            seq![(es.last().0.skip(parent.len() + 1 as int), es.last().1)]
        } else {
            Seq::empty()
        }
    }
}

/// Insert a pair into a list sorted by suffix, keeping it sorted.
pub open spec fn insert_sorted(x: (Seq<char>, Seq<char>), s: Seq<(Seq<char>, Seq<char>)>) -> Seq<
    (Seq<char>, Seq<char>),
>
    decreases s.len(),
{
    if s.len() == 0 {
        seq![x]
    } else if lex_lt(x.0, s[0].0) {
        seq![x] + s
    } else {
        seq![s[0]] + insert_sorted(x, s.drop_first())
    }
}

/// Sort (suffix, value) pairs by suffix, lexicographically.
pub open spec fn sort_subs(s: Seq<(Seq<char>, Seq<char>)>) -> Seq<(Seq<char>, Seq<char>)>
    decreases s.len(),
{
    if s.len() == 0 {
        Seq::empty()
    } else {
        insert_sorted(s.last(), sort_subs(s.drop_last()))
    }
}

/// The named sub-variables of `parent`, sorted by suffix for deterministic
/// ordering.
pub open spec fn spec_named_subs(es: Seq<EntryV>, parent: Seq<char>) -> Seq<(Seq<char>, Seq<char>)> {
    sort_subs(filter_subs(es, parent))
}

/// What one parameter evaluates to in flat (unnamed) form.
pub open spec fn spec_eval_param(m: Map<Seq<char>, Seq<char>>, p: ParamV) -> Seq<char> {
    match p {
        ParamV::Quoted(s) => spec_interp(m, s, RESOLVE_FUEL as nat),
        ParamV::Variable(n) => spec_resolve(m, n, RESOLVE_FUEL as nat),
        ParamV::Bare(s) => s,
    }
}

/// The resolved arguments one parameter contributes: struct expansion for a
/// root variable with named sub-variables, array expansion for one with
/// `count > 1`, otherwise a single argument carrying the derived name.
pub open spec fn spec_args_of_param(es: Seq<EntryV>, p: ParamV) -> Seq<ArgV> {
    let m = map_of(es);
    match p {
        ParamV::Variable(name) => {
            let rn = if name.contains('{') {
                spec_interp(m, name, RESOLVE_FUEL as nat)
            } else {
                name
            };
            if !rn.contains('/') {
                let subs = spec_named_subs(es, rn);
                if subs.len() > 0 {
                    Seq::new(
                        subs.len(),
                        |i: int| ArgV { name: Some(subs[i].0), value: subs[i].1 },
                    )
                } else {
                    let c = spec_count(m, rn);
                    if c > 1 {
                        Seq::new(c, |i: int| ArgV { name: None, value: spec_elems(m, rn, c)[i] })
                    } else {
                        seq![
                            ArgV {
                                name: spec_extract_param_name(rn),
                                value: spec_resolve(m, name, RESOLVE_FUEL as nat),
                            },
                        ]
                    }
                }
            } else {
                seq![
                    ArgV {
                        name: spec_extract_param_name(rn),
                        value: spec_resolve(m, name, RESOLVE_FUEL as nat),
                    },
                ]
            }
        },
        _ => seq![ArgV { name: None, value: spec_eval_param(m, p) }],
    }
}

/// The resolved arguments of a parameter list, in order.
pub open spec fn spec_args(es: Seq<EntryV>, ps: Seq<ParamV>) -> Seq<ArgV>
    decreases ps.len(),
{
    if ps.len() == 0 {
        Seq::empty()
    } else {
        spec_args(es, ps.drop_last()) + spec_args_of_param(es, ps.last())
    }
}

/// The flat values of resolved arguments.
pub open spec fn values_of(args: Seq<ArgV>) -> Seq<Seq<char>> {
    Seq::new(args.len(), |i: int| args[i].value)
}

/// Whether two resolved arguments carry the same derived name.
pub open spec fn has_dup_names(args: Seq<ArgV>) -> bool {
    exists|i: int, j: int|
        0 <= i < j < args.len() && args[i].name is Some && args[i].name == args[j].name
}

// ---------------------------------------------------------------------------
// Free helpers
// ---------------------------------------------------------------------------

/// Derive a parameter name from a variable path: the last path segment,
/// unless it is empty, numeric, or reserved by the calling convention.
pub fn extract_param_name(var_name: &str) -> (r: Option<String>)
    ensures
        match r {
            Some(n) => spec_extract_param_name(var_name@) == Some(n@),
            None => spec_extract_param_name(var_name@) is None,
        },
{
    let chars = str_chars(var_name);
    let base = text::last_seg_exec(chars.as_slice());
    if base.len() == 0 {
        return None;
    }
    if parse_usize(base.as_slice()).is_some() {
        return None;
    }
    let base_str = string_of(base.as_slice());
    if str_eq(base_str.as_str(), "argc") || str_eq(base_str.as_str(), "args") || str_eq(
        base_str.as_str(),
        "target",
    ) || str_eq(base_str.as_str(), "return") || str_eq(base_str.as_str(), "count") || str_eq(
        base_str.as_str(),
        "length",
    ) {
        return None;
    }
    Some(base_str)
}

/// The error text for an ambiguous named binding: the colliding name and
/// the two argument positions.
pub open spec fn dup_msg(name: Seq<char>, a: int, b: int) -> Seq<char> {
    "duplicate named parameter '"@ + name + "' (args "@ + dec_rep(a as nat) + " and "@ + dec_rep(
        b as nat,
    ) + ")"@
}

/// An ambiguous-named-binding error: a runtime error whose message names
/// the first derived name to recur, at its latest earlier position and the
/// position where it recurs.
pub open spec fn dup_error(av: Seq<ArgV>, e: BuclError) -> bool {
    e matches BuclError::RuntimeError(m) && exists|i: int, j: int|
        {
            &&& 0 <= j < i < av.len()
            &&& #[trigger] av[i].name is Some && av[i].name == #[trigger] av[j].name
            &&& forall|p: int, q: int|
                0 <= p < q < i ==> !(#[trigger] av[p].name is Some && av[p].name
                    == #[trigger] av[q].name)
            &&& forall|q: int| j < q < i ==> av[q].name != av[i].name
            &&& m@ == dup_msg(av[i].name->Some_0, j, i)
        }
}

/// Report a runtime error when two resolved arguments derive the same
/// parameter name (an ambiguous named binding), naming the colliding name
/// and both argument positions.
pub fn check_duplicate_names(resolved: &[ResolvedArg]) -> (r: Result<(), BuclError>)
    ensures
        match r {
            Ok(_) => !has_dup_names(args_view(resolved@)),
            Err(e) => has_dup_names(args_view(resolved@)) && e is RuntimeError && dup_error(
                args_view(resolved@),
                e,
            ),
        },
{
    let ghost av = args_view(resolved@);
    let n = resolved.len();
    let mut i: usize = 0;
    while i < n
        invariant
            n == resolved@.len(),
            av == args_view(resolved@),
            i <= n,
            forall|p: int, q: int|
                0 <= p < q < i ==> !(#[trigger] av[p].name is Some && av[p].name
                    == #[trigger] av[q].name),
        decreases n - i,
    {
        if let Some(name) = &resolved[i].name {
            let mut j: usize = i;
            while j > 0
                invariant
                    n == resolved@.len(),
                    av == args_view(resolved@),
                    j <= i < n,
                    av[i as int].name is Some,
                    name@ == av[i as int].name->Some_0,
                    forall|p: int, q: int|
                        0 <= p < q < i ==> !(#[trigger] av[p].name is Some && av[p].name
                            == #[trigger] av[q].name),
                    forall|q: int| j <= q < i ==> av[q].name != av[i as int].name,
                decreases j,
            {
                let hit: bool = if let Some(other) = &resolved[j - 1].name {
                    str_eq(name.as_str(), other.as_str())
                } else {
                    false
                };
                if hit {
                    proof {
                        assert(av[i as int].name == av[j - 1].name);
                    }
                    let mut m = String::from_str("duplicate named parameter '");
                    m.append(name.as_str());
                    m.append("' (args ");
                    m.append(string_of(usize_to_dec(j - 1).as_slice()).as_str());
                    m.append(" and ");
                    m.append(string_of(usize_to_dec(i).as_slice()).as_str());
                    m.append(")");
                    proof {
                        assert(m@ == dup_msg(av[i as int].name->Some_0, j - 1, i as int));
                    }
                    return Err(BuclError::RuntimeError(m));
                }
                j = j - 1;
            }
        }
        i = i + 1;
    }
    Ok(())
}

// ---------------------------------------------------------------------------
// The evaluator
// ---------------------------------------------------------------------------

/// The runtime environment: variable store, function registry, captured
/// output and the in-memory providers the host fills in.
pub struct Evaluator {
    /// The variable store of this scope.
    pub variables: VarStore,
    /// The dispatch table: names of built-in operations, first match wins.
    pub functions: Vec<(String, Builtin)>,
    /// Base directory the host resolves function-script lookups against;
    /// the evaluator itself only reads the in-memory table below.
    pub base_dir: Option<String>,
    /// Captured output lines; every emit appends here.
    pub output_buffer: Vec<String>,
    /// Preloaded function scripts keyed by function name; checked when a
    /// name matches no built-in.
    pub embedded_functions: VarStore,
    /// Named arguments of the current call, set before each dispatch and
    /// cleared afterwards.
    pub call_named_args: VarStore,
    /// The in-memory file table the file operations work against; the host
    /// loads it beforehand and collects writes afterwards.
    pub files: VarStore,
    /// Remaining allowed nesting depth for function-script calls.
    pub depth: usize,
}

/// The two evaluators agree on everything but the variable store.
pub open spec fn eq_except_vars(a: Evaluator, b: Evaluator) -> bool {
    &&& a.functions == b.functions
    &&& a.base_dir == b.base_dir
    &&& a.output_buffer == b.output_buffer
    &&& a.embedded_functions == b.embedded_functions
    &&& a.call_named_args == b.call_named_args
    &&& a.files == b.files
    &&& a.depth == b.depth
}

/// The two evaluators agree on everything but the output buffer.
pub open spec fn eq_except_output(a: Evaluator, b: Evaluator) -> bool {
    &&& a.variables == b.variables
    &&& a.functions == b.functions
    &&& a.base_dir == b.base_dir
    &&& a.embedded_functions == b.embedded_functions
    &&& a.call_named_args == b.call_named_args
    &&& a.files == b.files
    &&& a.depth == b.depth
}

/// The two evaluators agree on everything but the named-argument context.
pub open spec fn eq_except_named(a: Evaluator, b: Evaluator) -> bool {
    &&& a.variables == b.variables
    &&& a.functions == b.functions
    &&& a.base_dir == b.base_dir
    &&& a.output_buffer == b.output_buffer
    &&& a.embedded_functions == b.embedded_functions
    &&& a.files == b.files
    &&& a.depth == b.depth
}

/// The view of an optional returned value.
pub open spec fn opt_str_view(v: Option<String>) -> Option<Seq<char>> {
    match v {
        Some(s) => Some(s@),
        None => None,
    }
}

/// The named-argument context a resolved argument list induces: each
/// argument that carries a derived name binds it, later ones winning.
pub open spec fn named_map_of(av: Seq<ArgV>) -> Map<Seq<char>, Seq<char>>
    decreases av.len(),
{
    if av.len() == 0 {
        Map::empty()
    } else {
        let m = named_map_of(av.drop_last());
        match av.last().name {
            Some(nm) => m.insert(nm, av.last().value),
            None => m,
        }
    }
}

/// The two evaluators agree on everything but the file table.
pub open spec fn eq_except_files(a: Evaluator, b: Evaluator) -> bool {
    &&& a.variables == b.variables
    &&& a.functions == b.functions
    &&& a.base_dir == b.base_dir
    &&& a.output_buffer == b.output_buffer
    &&& a.embedded_functions == b.embedded_functions
    &&& a.call_named_args == b.call_named_args
    &&& a.depth == b.depth
}

impl Evaluator {
    /// All stores keep their keys distinct.
    pub open spec fn wf(&self) -> bool {
        &&& self.variables.wf()
        &&& self.embedded_functions.wf()
        &&& self.call_named_args.wf()
        &&& self.files.wf()
    }

    /// The mapping the variable store denotes.
    pub open spec fn vars_map(&self) -> Map<Seq<char>, Seq<char>> {
        self.variables.as_map()
    }

    pub fn new() -> (r: Evaluator)
        ensures
            r.wf(),
            r.vars_map() == Map::<Seq<char>, Seq<char>>::empty(),
            r.variables@ == Seq::<EntryV>::empty(),
            r.functions@ == Seq::<(String, Builtin)>::empty(),
            r.output_buffer@ == Seq::<String>::empty(),
            r.embedded_functions@ == Seq::<EntryV>::empty(),
            r.embedded_functions.as_map() == Map::<Seq<char>, Seq<char>>::empty(),
            r.call_named_args@ == Seq::<EntryV>::empty(),
            r.files@ == Seq::<EntryV>::empty(),
            r.files.as_map() == Map::<Seq<char>, Seq<char>>::empty(),
            r.base_dir is None,
            r.depth == CALL_DEPTH,
    {
        Evaluator {
            variables: VarStore::new(),
            functions: Vec::new(),
            base_dir: None,
            output_buffer: Vec::new(),
            embedded_functions: VarStore::new(),
            call_named_args: VarStore::new(),
            files: VarStore::new(),
            depth: CALL_DEPTH,
        }
    }

    // -----------------------------------------------------------------------
    // Function registry and providers
    // -----------------------------------------------------------------------

    /// Register a built-in operation under a name; a later registration of
    /// the same name wins.
    pub fn register(&mut self, name: &str, func: Builtin)
        ensures
            reg_view(final(self).functions@) == reg_view(old(self).functions@).insert(
                0,
                (name@, func),
            ),
            final(self).variables == old(self).variables,
            final(self).embedded_functions == old(self).embedded_functions,
            final(self).call_named_args == old(self).call_named_args,
            final(self).files == old(self).files,
            final(self).output_buffer == old(self).output_buffer,
            final(self).base_dir == old(self).base_dir,
            final(self).depth == old(self).depth,
            final(self).wf() == old(self).wf(),
    {
        let owned = string_of(str_chars(name).as_slice());
        self.functions.insert(0, (owned, func));
        proof {
            assert(reg_view(self.functions@) =~= reg_view(old(self).functions@).insert(
                0,
                (name@, func),
            ));
        }
    }

    /// Preload a function script under a name, so the evaluator can call it
    /// without a filesystem.
    pub fn add_embedded_function(&mut self, name: &str, source: &str)
        requires
            old(self).wf(),
        ensures
            final(self).wf(),
            final(self).embedded_functions.as_map() == old(self).embedded_functions.as_map()
                .insert(name@, source@),
            final(self).variables == old(self).variables,
            final(self).call_named_args == old(self).call_named_args,
            final(self).files == old(self).files,
            final(self).functions == old(self).functions,
            final(self).output_buffer == old(self).output_buffer,
            final(self).base_dir == old(self).base_dir,
            final(self).depth == old(self).depth,
    {
        let owned = string_of(str_chars(source).as_slice());
        self.embedded_functions.insert(name, owned);
    }

    /// Preload one file of the in-memory file table.
    pub fn add_file(&mut self, path: &str, contents: &str)
        requires
            old(self).wf(),
        ensures
            final(self).wf(),
            final(self).files.as_map() == old(self).files.as_map().insert(path@, contents@),
            final(self).variables == old(self).variables,
            final(self).call_named_args == old(self).call_named_args,
            final(self).embedded_functions == old(self).embedded_functions,
            final(self).functions == old(self).functions,
            final(self).output_buffer == old(self).output_buffer,
            final(self).base_dir == old(self).base_dir,
            final(self).depth == old(self).depth,
    {
        let owned = string_of(str_chars(contents).as_slice());
        self.files.insert(path, owned);
    }

    /// Look up a named argument of the current call.
    pub fn named_arg(&self, name: &str) -> (r: Option<&String>)
        requires
            self.wf(),
        ensures
            match r {
                Some(v) => self.call_named_args.as_map().contains_key(name@) && v@
                    == self.call_named_args.as_map()[name@],
                None => !self.call_named_args.as_map().contains_key(name@),
            },
    {
        self.call_named_args.get(name)
    }

    // -----------------------------------------------------------------------
    // Variable access
    // -----------------------------------------------------------------------

    /// Store a value. A root variable (no `/`) also gets its two metadata
    /// sub-variables rewritten: `name/count` as `"1"` and `name/length` as
    /// the character count of the value. A sub-variable is stored exactly as
    /// given.
    pub fn set_var(&mut self, name: &str, value: String)
        requires
            old(self).wf(),
        ensures
            final(self).wf(),
            final(self).vars_map() == set_map(old(self).vars_map(), name@, value@),
            final(self).embedded_functions == old(self).embedded_functions,
            final(self).call_named_args == old(self).call_named_args,
            final(self).files == old(self).files,
            final(self).functions == old(self).functions,
            final(self).output_buffer == old(self).output_buffer,
            final(self).base_dir == old(self).base_dir,
            final(self).depth == old(self).depth,
    {
        let chars = str_chars(name);
        if !contains_char(chars.as_slice(), '/') {
            let length = value.as_str().unicode_len();
            let mut length_k = string_of(chars.as_slice());
            length_k.append("/length");
            self.variables.insert(length_k.as_str(), string_of(usize_to_dec(length).as_slice()));
            let mut count_k = string_of(chars.as_slice());
            count_k.append("/count");
            self.variables.insert(count_k.as_str(), String::from_str("1"));
        }
        self.variables.insert(name, value);
    }

    /// Look a raw key up, without index fallback or interpolation.
    fn get_raw(&self, name: &str) -> (r: Option<&String>)
        requires
            self.wf(),
        ensures
            match r {
                Some(v) => self.vars_map().contains_key(name@) && v@ == self.vars_map()[name@],
                None => !self.vars_map().contains_key(name@),
            },
    {
        self.variables.get(name)
    }

    /// The element count of a variable, per its `count` metadata.
    fn count_of(&self, name: &[char]) -> (r: usize)
        requires
            self.wf(),
        ensures
            r as nat == spec_count(self.vars_map(), name@),
    {
        let mut k = string_of(name);
        k.append("/count");
        match self.variables.get(k.as_str()) {
            Some(v) => match parse_usize(str_chars(v.as_str()).as_slice()) {
                Some(c) => c,
                None => 0,
            },
            None => 0,
        }
    }

    /// Plain resolution: direct lookup, then count-gated character indexing
    /// for a numeric suffix, else the empty string.
    fn resolve_plain(&self, name: &[char]) -> (r: Vec<char>)
        requires
            self.wf(),
        ensures
            r@ == spec_resolve_plain(self.vars_map(), name@),
    {
        let name_str = string_of(name);
        if let Some(v) = self.get_raw(name_str.as_str()) {
            return str_chars(v.as_str());
        }
        proof {
            text::lemma_first_idx(name@, '/');
        }
        let nl = name.len();
        match find_char(name, '/') {
            Some(si) => {
                let parent = slice_subrange(name, 0, si);
                let idx = slice_subrange(name, si + 1, nl);
                match parse_usize(idx) {
                    Some(i) => {
                        let c = self.count_of(parent);
                        if c == 1 {
                            let parent_str = string_of(parent);
                            if let Some(v) = self.get_raw(parent_str.as_str()) {
                                let vc = str_chars(v.as_str());
                                if i < vc.len() {
                                    let ch = vc[i];
                                    let mut out: Vec<char> = Vec::new();
                                    out.push(ch);
                                    proof {
                                        assert(out@ =~= seq![
                                            self.vars_map()[parent@][i as int],
                                        ]);
                                    }
                                    return out;
                                }
                            }
                        }
                        Vec::new()
                    },
                    None => Vec::new(),
                }
            },
            None => Vec::new(),
        }
    }

    /// Interpolate the suffix of `s` starting at `i`.
    fn interp_go(&self, s: &[char], i: usize, fuel: usize) -> (r: Vec<char>)
        requires
            self.wf(),
            i <= s@.len(),
        ensures
            r@ == spec_interp(self.vars_map(), s@.skip(i as int), fuel as nat),
        decreases fuel, s@.len() - i, 0int,
    {
        let ghost t = s@.skip(i as int);
        if i >= s.len() {
            let r: Vec<char> = Vec::new();
            proof {
                assert(r@ =~= spec_interp(self.vars_map(), t, fuel as nat));
            }
            return r;
        }
        let c = s[i];
        proof {
            assert(t[0] == c);
            assert(t.drop_first() =~= s@.skip(i + 1));
        }
        if c != '{' {
            let mut out: Vec<char> = Vec::new();
            out.push(c);
            let mut rest = self.interp_go(s, i + 1, fuel);
            out.append(&mut rest);
            proof {
                assert(out@ =~= spec_interp(self.vars_map(), t, fuel as nat));
            }
            return out;
        }
        match text::brace_close_exec(s, i + 1, 0) {
            Some(j) => {
                proof {
                    assert(t.skip(1) =~= s@.skip(i + 1));
                    assert(text::brace_close(t.skip(1), 0) == Some((j - (i + 1)) as nat));
                }
                let inner = slice_subrange(s, i + 1, j);
                let mut out = self.interp_name(inner, fuel);
                let mut rest = self.interp_go(s, j + 1, fuel);
                proof {
                    assert(inner@ =~= t.subrange(1, 1 + (j - (i + 1))));
                    assert(s@.skip(j + 1) =~= t.skip(2 + (j - (i + 1))));
                }
                out.append(&mut rest);
                proof {
                    let jj = (j - (i + 1)) as int;
                    assert(out@ =~= spec_interp_name(self.vars_map(), t.subrange(1, 1 + jj), fuel as nat)
                        + spec_interp(self.vars_map(), t.skip(2 + jj), fuel as nat));
                }
                out
            },
            None => {
                proof {
                    assert(t.skip(1) =~= s@.skip(i + 1));
                }
                let mut out: Vec<char> = Vec::new();
                out.push('{');
                let mut rest = text::slice_to_vec_chars(slice_subrange(s, i + 1, s.len()));
                out.append(&mut rest);
                proof {
                    assert(out@ =~= seq!['{'] + t.skip(1));
                }
                out
            },
        }
    }

    /// Resolve a reference inside a quoted template, with auto-implode for
    /// multi-element root variables.
    fn interp_name(&self, name: &[char], fuel: usize) -> (r: Vec<char>)
        requires
            self.wf(),
        ensures
            r@ == spec_interp_name(self.vars_map(), name@, fuel as nat),
        decreases fuel, name@.len(), 1int,
    {
        let rn: Vec<char> = if contains_char(name, '{') {
            proof {
                assert(name@.skip(0) =~= name@);
            }
            self.interp_go(name, 0, fuel)
        } else {
            text::slice_to_vec_chars(name)
        };
        if !contains_char(rn.as_slice(), '/') {
            let c = self.count_of(rn.as_slice());
            if c > 1 {
                return self.implode(rn.as_slice(), c);
            }
        }
        if fuel == 0 {
            let r: Vec<char> = Vec::new();
            proof {
                assert(r@ =~= spec_interp_name(self.vars_map(), name@, fuel as nat));
            }
            r
        } else {
            self.resolve_go(rn.as_slice(), fuel - 1)
        }
    }

    /// Join the elements of a multi-element variable with single spaces.
    fn implode(&self, name: &[char], c: usize) -> (r: Vec<char>)
        requires
            self.wf(),
        ensures
            r@ == spec_implode(self.vars_map(), name@, c as nat),
    {
        let mut parts: Vec<String> = Vec::new();
        let mut i: usize = 0;
        while i < c
            invariant
                self.wf(),
                i <= c,
                parts@.len() == i,
                seq_views(parts@) == spec_elems(self.vars_map(), name@, c as nat).subrange(
                    0,
                    i as int,
                ),
            decreases c - i,
        {
            let mut k = string_of(name);
            k.append("/");
            k.append(string_of(usize_to_dec(i).as_slice()).as_str());
            proof {
                assert(k@ == index_key(name@, i as nat));
            }
            let part = match self.variables.get(k.as_str()) {
                Some(v) => v.clone(),
                None => String::new(),
            };
            parts.push(part);
            proof {
                assert(seq_views(parts@) =~= spec_elems(self.vars_map(), name@, c as nat).subrange(
                    0,
                    i + 1,
                ));
            }
            i = i + 1;
        }
        proof {
            assert(spec_elems(self.vars_map(), name@, c as nat).subrange(0, c as int) =~= spec_elems(
                self.vars_map(),
                name@,
                c as nat,
            ));
        }
        let joined = text::join_strings(&parts, " ");
        str_chars(joined.as_str())
    }

    /// Resolve a name with the given remaining fuel.
    fn resolve_go(&self, name: &[char], fuel: usize) -> (r: Vec<char>)
        requires
            self.wf(),
        ensures
            r@ == spec_resolve(self.vars_map(), name@, fuel as nat),
        decreases fuel, name@.len(), 2int,
    {
        if contains_char(name, '{') {
            if fuel == 0 {
                let r: Vec<char> = Vec::new();
                proof {
                    assert(r@ =~= spec_resolve(self.vars_map(), name@, fuel as nat));
                }
                r
            } else {
                proof {
                    assert(name@.skip(0) =~= name@);
                }
                let rn = self.interp_go(name, 0, fuel);
                self.resolve_go(rn.as_slice(), fuel - 1)
            }
        } else {
            self.resolve_plain(name)
        }
    }

    /// Resolve a variable name: direct lookup, count-gated character
    /// indexing for numeric suffixes, and recursion through interpolation
    /// when the name itself contains `{...}`.
    pub fn resolve_var(&self, name: &str) -> (r: String)
        requires
            self.wf(),
        ensures
            r@ == spec_resolve(self.vars_map(), name@, RESOLVE_FUEL as nat),
    {
        let chars = str_chars(name);
        let out = self.resolve_go(chars.as_slice(), RESOLVE_FUEL);
        string_of(out.as_slice())
    }

    /// Expand `{...}` references inside a template.
    pub fn interpolate(&self, s: &str) -> (r: String)
        requires
            self.wf(),
        ensures
            r@ == spec_interp(self.vars_map(), s@, RESOLVE_FUEL as nat),
    {
        let chars = str_chars(s);
        proof {
            assert(chars@.skip(0) =~= chars@);
        }
        let out = self.interp_go(chars.as_slice(), 0, RESOLVE_FUEL);
        string_of(out.as_slice())
    }

    // -----------------------------------------------------------------------
    // Parameter evaluation
    // -----------------------------------------------------------------------

    /// Evaluate one parameter to its flat string value.
    pub fn eval_param(&self, param: &Param) -> (r: String)
        requires
            self.wf(),
        ensures
            r@ == spec_eval_param(self.vars_map(), param@),
    {
        match param {
            Param::Quoted(s) => self.interpolate(s.as_str()),
            Param::Variable(name) => self.resolve_var(name.as_str()),
            Param::Bare(s) => s.clone(),
        }
    }

    /// Find the named sub-variables of `parent`, sorted by suffix.
    pub fn find_named_sub_vars(&self, parent: &str) -> (r: Vec<(String, String)>)
        requires
            self.wf(),
        ensures
            crate::store::entry_views(r@) == spec_named_subs(self.variables@, parent@),
    {
        let ghost es = self.variables@;
        let pchars = str_chars(parent);
        let plen = pchars.len();
        let mut prefix = string_of(pchars.as_slice());
        prefix.append("/");
        let prefix_chars = str_chars(prefix.as_str());

        // Filter, in storage order.
        let mut found: Vec<(String, String)> = Vec::new();
        let n = self.variables.entries.len();
        let mut i: usize = 0;
        while i < n
            invariant
                self.wf(),
                es == self.variables@,
                n == self.variables.entries@.len(),
                i <= n,
                plen == parent@.len(),
                prefix_chars@ == parent@ + "/"@,
                found@.len() == filter_subs(es.subrange(0, i as int), parent@).len(),
                crate::store::entry_views(found@) == filter_subs(es.subrange(0, i as int), parent@),
            decreases n - i,
        {
            proof {
                assert(es.subrange(0, i + 1).drop_last() =~= es.subrange(0, i as int));
                assert(es.subrange(0, i + 1).last() == es[i as int]);
            }
            let key_chars = str_chars(self.variables.entries[i].0.as_str());
            let is_sub: bool = if key_chars.len() > plen {
                let kp = slice_subrange(key_chars.as_slice(), 0, plen + 1);
                if text::chars_eq(kp, prefix_chars.as_slice()) {
                    let sfx = slice_subrange(key_chars.as_slice(), plen + 1, key_chars.len());
                    if contains_char(sfx, '/') {
                        false
                    } else {
                        let sfx_str = string_of(sfx);
                        if str_eq(sfx_str.as_str(), "count") || str_eq(sfx_str.as_str(), "length") {
                            false
                        } else {
                            parse_usize(sfx).is_none()
                        }
                    }
                } else {
                    false
                }
            } else {
                false
            };
            proof {
                assert(is_sub == valid_sub_key(parent@, es[i as int].0));
            }
            if is_sub {
                let key_len = key_chars.len();
                let sfx = slice_subrange(key_chars.as_slice(), plen + 1, key_len);
                let sfx_string = string_of(sfx);
                let value = self.variables.entries[i].1.clone();
                found.push((sfx_string, value));
                proof {
                    assert(crate::store::entry_views(found@) =~= filter_subs(
                        es.subrange(0, i + 1),
                        parent@,
                    ));
                }
            } else {
                proof {
                    assert(crate::store::entry_views(found@) =~= filter_subs(
                        es.subrange(0, i + 1),
                        parent@,
                    ));
                }
            }
            i = i + 1;
        }
        proof {
            assert(es.subrange(0, es.len() as int) =~= es);
        }

        // Sort by suffix for deterministic ordering.
        let ghost fv = crate::store::entry_views(found@);
        let mut out: Vec<(String, String)> = Vec::new();
        let m = found.len();
        let mut k: usize = 0;
        while k < m
            invariant
                m == found@.len(),
                fv == crate::store::entry_views(found@),
                k <= m,
                out@.len() == sort_subs(fv.subrange(0, k as int)).len(),
                crate::store::entry_views(out@) == sort_subs(fv.subrange(0, k as int)),
            decreases m - k,
        {
            proof {
                assert(fv.subrange(0, k + 1).drop_last() =~= fv.subrange(0, k as int));
                assert(fv.subrange(0, k + 1).last() == fv[k as int]);
            }
            let item_name = found[k].0.clone();
            let item_value = found[k].1.clone();
            let item_chars = str_chars(item_name.as_str());

            // Find the insertion point.
            let ghost sorted = crate::store::entry_views(out@);
            let p = insert_pos(&out, item_chars.as_slice());
            proof {
                lemma_insert_sorted_at(fv[k as int], sorted, p as int);
            }
            out.insert(p, (item_name, item_value));
            proof {
                assert(crate::store::entry_views(out@) =~= sorted.subrange(0, p as int) + seq![
                    fv[k as int],
                ] + sorted.subrange(p as int, sorted.len() as int));
                assert(crate::store::entry_views(out@) =~= sort_subs(fv.subrange(0, k + 1)));
            }
            k = k + 1;
        }
        proof {
            assert(fv.subrange(0, fv.len() as int) =~= fv);
        }
        out
    }

    /// Evaluate parameters while preserving derived names: struct expansion
    /// for root variables with named sub-variables, array expansion for root
    /// variables with `count > 1`, one argument otherwise.
    pub fn eval_params_with_names(&self, params: &[Param]) -> (r: Vec<ResolvedArg>)
        requires
            self.wf(),
        ensures
            args_view(r@) == spec_args(self.variables@, params_view(params@)),
    {
        let ghost pv = params_view(params@);
        let mut out: Vec<ResolvedArg> = Vec::new();
        let n = params.len();
        let mut i: usize = 0;
        while i < n
            invariant
                self.wf(),
                n == params@.len(),
                pv == params_view(params@),
                i <= n,
                out@.len() == spec_args(self.variables@, pv.subrange(0, i as int)).len(),
                args_view(out@) == spec_args(self.variables@, pv.subrange(0, i as int)),
            decreases n - i,
        {
            proof {
                assert(pv.subrange(0, i + 1).drop_last() =~= pv.subrange(0, i as int));
                assert(pv.subrange(0, i + 1).last() == pv[i as int]);
            }
            let ghost before = args_view(out@);
            match &params[i] {
                Param::Variable(name) => {
                    let name_chars = str_chars(name.as_str());
                    let rn: Vec<char> = if contains_char(name_chars.as_slice(), '{') {
                        proof {
                            assert(name_chars@.skip(0) =~= name_chars@);
                        }
                        self.interp_go(name_chars.as_slice(), 0, RESOLVE_FUEL)
                    } else {
                        text::slice_to_vec_chars(name_chars.as_slice())
                    };
                    let mut expanded = false;
                    if !contains_char(rn.as_slice(), '/') {
                        let rn_str = string_of(rn.as_slice());
                        let subs = self.find_named_sub_vars(rn_str.as_str());
                        if subs.len() > 0 {
                            let ghost subs_v = spec_named_subs(self.variables@, rn@);
                            let mut si: usize = 0;
                            while si < subs.len()
                                invariant
                                    si <= subs@.len(),
                                    subs@.len() == subs_v.len(),
                                    crate::store::entry_views(subs@) == subs_v,
                                    out@.len() == before.len() + si,
                                    args_view(out@) == before + Seq::new(
                                        si as nat,
                                        |q: int| ArgV {
                                            name: Some(subs_v[q].0),
                                            value: subs_v[q].1,
                                        },
                                    ),
                                decreases subs@.len() - si,
                            {
                                let sname = subs[si].0.clone();
                                let svalue = subs[si].1.clone();
                                proof {
                                    assert(crate::store::entry_views(subs@)[si as int]
                                        == subs_v[si as int]);
                                    assert(sname@ == subs_v[si as int].0);
                                    assert(svalue@ == subs_v[si as int].1);
                                }
                                let ghost out_pre = out@;
                                out.push(ResolvedArg { name: Some(sname), value: svalue });
                                proof {
                                    let rhs = before + Seq::new(
                                        (si + 1) as nat,
                                        |q: int| ArgV {
                                            name: Some(subs_v[q].0),
                                            value: subs_v[q].1,
                                        },
                                    );
                                    assert(args_view(out@).len() == rhs.len());
                                    assert forall|j: int| 0 <= j < rhs.len() implies args_view(
                                        out@,
                                    )[j] == rhs[j] by {
                                        if j < out_pre.len() {
                                            assert(out@[j] == out_pre[j]);
                                            assert(args_view(out@)[j] == args_view(out_pre)[j]);
                                        } else {
                                            assert(args_view(out@)[j] == (ArgV {
                                                name: Some(subs_v[si as int].0),
                                                value: subs_v[si as int].1,
                                            }));
                                        }
                                    }
                                    assert(args_view(out@) =~= rhs);
                                }
                                si = si + 1;
                            }
                            proof {
                                assert(Seq::new(
                                    subs@.len(),
                                    |q: int| ArgV { name: Some(subs_v[q].0), value: subs_v[q].1 },
                                ) =~= spec_args_of_param(self.variables@, pv[i as int]));
                            }
                            expanded = true;
                        } else {
                            let c = self.count_of(rn.as_slice());
                            if c > 1 {
                                let ghost m = self.vars_map();
                                let mut ei: usize = 0;
                                while ei < c
                                    invariant
                                        self.wf(),
                                        m == self.vars_map(),
                                        ei <= c,
                                        out@.len() == before.len() + ei,
                                        args_view(out@) == before + Seq::new(
                                            ei as nat,
                                            |q: int| ArgV {
                                                name: None,
                                                value: spec_elems(m, rn@, c as nat)[q],
                                            },
                                        ),
                                    decreases c - ei,
                                {
                                    let mut ekey = string_of(rn.as_slice());
                                    ekey.append("/");
                                    ekey.append(string_of(usize_to_dec(ei).as_slice()).as_str());
                                    proof {
                                        assert(ekey@ == index_key(rn@, ei as nat));
                                    }
                                    let evalue = match self.variables.get(ekey.as_str()) {
                                        Some(v) => v.clone(),
                                        None => String::new(),
                                    };
                                    proof {
                                        assert(evalue@ == spec_elems(m, rn@, c as nat)[ei as int]);
                                    }
                                    let ghost out_pre = out@;
                                    out.push(ResolvedArg { name: None, value: evalue });
                                    proof {
                                        let rhs = before + Seq::new(
                                            (ei + 1) as nat,
                                            |q: int| ArgV {
                                                name: None,
                                                value: spec_elems(m, rn@, c as nat)[q],
                                            },
                                        );
                                        assert(args_view(out@).len() == rhs.len());
                                        assert forall|j: int| 0 <= j < rhs.len() implies args_view(
                                            out@,
                                        )[j] == rhs[j] by {
                                            if j < out_pre.len() {
                                                assert(out@[j] == out_pre[j]);
                                                assert(args_view(out@)[j] == args_view(out_pre)[j]);
                                            } else {
                                                assert(args_view(out@)[j] == (ArgV {
                                                    name: None,
                                                    value: spec_elems(m, rn@, c as nat)[ei as int],
                                                }));
                                            }
                                        }
                                        assert(args_view(out@) =~= rhs);
                                    }
                                    ei = ei + 1;
                                }
                                proof {
                                    assert(Seq::new(
                                        c as nat,
                                        |q: int| ArgV {
                                            name: None,
                                            value: spec_elems(m, rn@, c as nat)[q],
                                        },
                                    ) =~= spec_args_of_param(self.variables@, pv[i as int]));
                                }
                                expanded = true;
                            }
                        }
                    }
                    if !expanded {
                        let rn_str = string_of(rn.as_slice());
                        let derived = extract_param_name(rn_str.as_str());
                        let value = self.resolve_var(name.as_str());
                        out.push(ResolvedArg { name: derived, value });
                        proof {
                            assert(args_view(out@) =~= before + spec_args_of_param(
                                self.variables@,
                                pv[i as int],
                            ));
                        }
                    }
                },
                _ => {
                    let value = self.eval_param(&params[i]);
                    out.push(ResolvedArg { name: None, value });
                    proof {
                        assert(args_view(out@) =~= before + spec_args_of_param(
                            self.variables@,
                            pv[i as int],
                        ));
                    }
                },
            }
            proof {
                assert(args_view(out@) =~= spec_args(self.variables@, pv.subrange(0, i + 1)));
            }
            i = i + 1;
        }
        proof {
            assert(pv.subrange(0, pv.len() as int) =~= pv);
        }
        out
    }

    /// Evaluate a parameter list into its flat string values, with array
    /// and struct expansion applied.
    pub fn eval_params(&self, params: &[Param]) -> (r: Vec<String>)
        requires
            self.wf(),
        ensures
            seq_views(r@) == values_of(spec_args(self.variables@, params_view(params@))),
    {
        let resolved = self.eval_params_with_names(params);
        let mut out: Vec<String> = Vec::new();
        let n = resolved.len();
        let mut i: usize = 0;
        while i < n
            invariant
                n == resolved@.len(),
                args_view(resolved@) == spec_args(self.variables@, params_view(params@)),
                i <= n,
                out@.len() == i,
                seq_views(out@) == values_of(args_view(resolved@)).subrange(0, i as int),
            decreases n - i,
        {
            let v = resolved[i].value.clone();
            out.push(v);
            proof {
                assert(seq_views(out@) =~= values_of(args_view(resolved@)).subrange(0, i + 1));
            }
            i = i + 1;
        }
        proof {
            let vals = values_of(args_view(resolved@));
            assert(vals.subrange(0, vals.len() as int) =~= vals);
        }
        out
    }
}

// ---------------------------------------------------------------------------
// Laws of the variable store
// ---------------------------------------------------------------------------

/// Non-strictly ascending by suffix.
pub open spec fn subs_sorted(s: Seq<(Seq<char>, Seq<char>)>) -> bool {
    forall|i: int, j: int| 0 <= i < j < s.len() ==> !lex_lt(s[j].0, s[i].0)
}

proof fn lemma_lex_irrefl(a: Seq<char>)
    ensures
        !lex_lt(a, a),
    decreases a.len(),
{
    if a.len() > 0 {
        lemma_lex_irrefl(a.drop_first());
    }
}

/// Every element of an insertion result is the new pair or one of the old.
proof fn lemma_insert_sorted_elems(x: (Seq<char>, Seq<char>), s: Seq<(Seq<char>, Seq<char>)>)
    ensures
        insert_sorted(x, s).len() == s.len() + 1,
        forall|k: int|
            0 <= k < insert_sorted(x, s).len() ==> (#[trigger] insert_sorted(x, s)[k] == x
                || exists|j: int| 0 <= j < s.len() && s[j] == insert_sorted(x, s)[k]),
    decreases s.len(),
{
    if s.len() > 0 && !lex_lt(x.0, s[0].0) {
        lemma_insert_sorted_elems(x, s.drop_first());
        let r = insert_sorted(x, s);
        assert forall|k: int|
            0 <= k < r.len() implies (r[k] == x || exists|j: int|
            0 <= j < s.len() && s[j] == r[k]) by {
            if k == 0 {
                assert(s[0] == r[0]);
            } else {
                let rt = insert_sorted(x, s.drop_first());
                assert(r[k] == rt[k - 1]);
                if rt[k - 1] != x {
                    let j = choose|j: int| 0 <= j < s.drop_first().len() && s.drop_first()[j]
                        == rt[k - 1];
                    assert(s[j + 1] == r[k]);
                }
            }
        }
    }
}

proof fn lemma_insert_sorted_keeps_sorted(x: (Seq<char>, Seq<char>), s: Seq<(Seq<char>, Seq<char>)>)
    requires
        subs_sorted(s),
    ensures
        subs_sorted(insert_sorted(x, s)),
    decreases s.len(),
{
    let r = insert_sorted(x, s);
    if s.len() == 0 {
    } else if lex_lt(x.0, s[0].0) {
        assert forall|i: int, j: int| 0 <= i < j < r.len() implies !lex_lt(r[j].0, r[i].0) by {
            if i == 0 {
                // Everything after the new head is at least the old head.
                if lex_lt(r[j].0, x.0) {
                    crate::text::lemma_lex_trans(r[j].0, x.0, s[0].0);
                    if j == 1 {
                        lemma_lex_irrefl(s[0].0);
                    } else {
                        assert(r[j].0 == s[j - 1].0);
                        assert(!lex_lt(s[j - 1].0, s[0].0));
                    }
                }
            } else {
                assert(r[i] == s[i - 1] && r[j] == s[j - 1]);
            }
        }
    } else {
        assert(subs_sorted(s.drop_first())) by {
            assert(forall|i: int, j: int|
                0 <= i < j < s.drop_first().len() ==> s.drop_first()[i] == s[i + 1]
                    && s.drop_first()[j] == s[j + 1]);
        }
        lemma_insert_sorted_keeps_sorted(x, s.drop_first());
        lemma_insert_sorted_elems(x, s.drop_first());
        let rt = insert_sorted(x, s.drop_first());
        assert forall|i: int, j: int| 0 <= i < j < r.len() implies !lex_lt(r[j].0, r[i].0) by {
            if i == 0 {
                assert(r[j] == rt[j - 1]);
                if lex_lt(rt[j - 1].0, s[0].0) {
                    if rt[j - 1] == x {
                        // The head does not exceed the new pair.
                        crate::text::lemma_lex_trichotomy(x.0, s[0].0);
                    } else {
                        let w = choose|w: int|
                            0 <= w < s.drop_first().len() && s.drop_first()[w] == rt[j - 1];
                        assert(s[w + 1] == rt[j - 1]);
                        assert(!lex_lt(s[w + 1].0, s[0].0));
                    }
                }
            } else {
                assert(r[i] == rt[i - 1] && r[j] == rt[j - 1]);
            }
        }
    }
}

proof fn lemma_sort_subs_sorted(s: Seq<(Seq<char>, Seq<char>)>)
    ensures
        subs_sorted(sort_subs(s)),
    decreases s.len(),
{
    if s.len() > 0 {
        lemma_sort_subs_sorted(s.drop_last());
        lemma_insert_sorted_keeps_sorted(s.last(), sort_subs(s.drop_last()));
    }
}

/// Law: struct expansion hands the named sub-variables out sorted by their
/// suffix, so the derived argument order is deterministic whatever order
/// the store holds them in.
pub proof fn lemma_named_subs_sorted(es: Seq<EntryV>, parent: Seq<char>)
    ensures
        subs_sorted(spec_named_subs(es, parent)),
{
    lemma_sort_subs_sorted(filter_subs(es, parent));
}

/// Law: a single-value root assignment always leaves the variable resolving
/// to the stored value, its `count` metadata resolving to `"1"`, and its
/// `length` metadata resolving to the character count of the value. The map
/// below is exactly what `set_var` writes for a root variable.
pub proof fn lemma_single_assignment_metadata(
    m: Map<Seq<char>, Seq<char>>,
    name: Seq<char>,
    value: Seq<char>,
    fuel: nat,
)
    requires
        !name.contains('/'),
        !name.contains('{'),
    ensures
        ({
            let m2 = m.insert(length_key(name), dec_rep(value.len())).insert(
                count_key(name),
                "1"@,
            ).insert(name, value);
            &&& spec_resolve(m2, name, fuel) == value
            &&& spec_resolve(m2, count_key(name), fuel) == "1"@
            &&& spec_resolve(m2, length_key(name), fuel) == dec_rep(value.len())
        }),
{
    reveal_strlit("/count");
    reveal_strlit("/length");
    let ck = count_key(name);
    let lk = length_key(name);
    let m2 = m.insert(lk, dec_rep(value.len())).insert(ck, "1"@).insert(name, value);
    assert(ck.len() == name.len() + 6);
    assert(lk.len() == name.len() + 7);
    assert(ck != name && lk != name && ck != lk);
    assert(!ck.contains('{')) by {
        if ck.contains('{') {
            let w = choose|w: int| 0 <= w < ck.len() && ck[w] == '{';
            if w < name.len() {
                assert(name[w] == '{');
            } else {
                assert("/count"@[w - name.len()] == '{');
            }
        }
    }
    assert(!lk.contains('{')) by {
        if lk.contains('{') {
            let w = choose|w: int| 0 <= w < lk.len() && lk[w] == '{';
            if w < name.len() {
                assert(name[w] == '{');
            } else {
                assert("/length"@[w - name.len()] == '{');
            }
        }
    }
    assert(spec_resolve(m2, name, fuel) == value);
    assert(spec_resolve(m2, ck, fuel) == "1"@);
    assert(spec_resolve(m2, lk, fuel) == dec_rep(value.len()));
}

// ---------------------------------------------------------------------------
// Dispatch and the calling convention
// ---------------------------------------------------------------------------

/// The registry as ghost name/built-in pairs.
pub open spec fn reg_view(rs: Seq<(String, Builtin)>) -> Seq<(Seq<char>, Builtin)> {
    Seq::new(rs.len(), |i: int| (rs[i].0@, rs[i].1))
}

/// How a statement's target name resolves: through interpolation when it
/// contains a reference, else as written.
pub open spec fn spec_target_name(m: Map<Seq<char>, Seq<char>>, t: Seq<char>) -> Seq<char> {
    if t.contains('{') {
        spec_interp(m, t, RESOLVE_FUEL as nat)
    } else {
        t
    }
}

/// The first registry entry for a name, if any.
pub open spec fn lookup_builtin(rs: Seq<(Seq<char>, Builtin)>, name: Seq<char>) -> Option<Builtin>
    decreases rs.len(),
{
    if rs.len() == 0 {
        None
    } else if rs[0].0 == name {
        Some(rs[0].1)
    } else {
        lookup_builtin(rs.drop_first(), name)
    }
}

/// The dispatch table after every standard registration: each language
/// name resolves to its operation.
pub open spec fn standard_registry(rs: Seq<(Seq<char>, Builtin)>) -> bool {
    &&& lookup_builtin(rs, "="@) == Some(Builtin::Assign)
    &&& lookup_builtin(rs, "count"@) == Some(Builtin::Count)
    &&& lookup_builtin(rs, "each"@) == Some(Builtin::Each)
    &&& lookup_builtin(rs, "getvar"@) == Some(Builtin::GetVar)
    &&& lookup_builtin(rs, "if"@) == Some(Builtin::If)
    &&& lookup_builtin(rs, "elseif"@) == Some(Builtin::If)
    &&& lookup_builtin(rs, "else"@) == Some(Builtin::Else)
    &&& lookup_builtin(rs, "length"@) == Some(Builtin::Length)
    &&& lookup_builtin(rs, "math"@) == Some(Builtin::Math)
    &&& lookup_builtin(rs, "random"@) == Some(Builtin::Random)
    &&& lookup_builtin(rs, "readfile"@) == Some(Builtin::ReadFile)
    &&& lookup_builtin(rs, "repeat"@) == Some(Builtin::Repeat)
    &&& lookup_builtin(rs, "setvar"@) == Some(Builtin::SetVar)
    &&& lookup_builtin(rs, "strpos"@) == Some(Builtin::StrPos)
    &&& lookup_builtin(rs, "substr"@) == Some(Builtin::Substr)
    &&& lookup_builtin(rs, "writefile"@) == Some(Builtin::WriteFile)
    &&& lookup_builtin(rs, "cmp"@) == Some(Builtin::Cmp)
    &&& lookup_builtin(rs, "echo"@) == Some(Builtin::Echo)
    &&& lookup_builtin(rs, "sleep"@) == Some(Builtin::Sleep)
}

impl Evaluator {
    /// Look a name up in the dispatch table.
    fn find_function(&self, name: &str) -> (r: Option<Builtin>)
        ensures
            r == lookup_builtin(reg_view(self.functions@), name@),
    {
        let ghost rv = reg_view(self.functions@);
        proof {
            assert(rv.skip(0) =~= rv);
        }
        let n = self.functions.len();
        let mut i: usize = 0;
        while i < n
            invariant
                rv == reg_view(self.functions@),
                n == self.functions@.len(),
                i <= n,
                lookup_builtin(rv, name@) == lookup_builtin(rv.skip(i as int), name@),
            decreases n - i,
        {
            proof {
                assert(rv.skip(i as int)[0] == rv[i as int]);
                assert(rv.skip(i as int).drop_first() =~= rv.skip(i + 1));
            }
            if str_eq(self.functions[i].0.as_str(), name) {
                return Some(self.functions[i].1);
            }
            i = i + 1;
        }
        None
    }

    /// Evaluate a sequence of statements in order, stopping at the first
    /// failure.
    pub fn evaluate_statements(&mut self, stmts: &[Statement]) -> (r: Result<(), BuclError>)
        requires
            old(self).wf(),
        ensures
            final(self).wf(),
            final(self).depth == old(self).depth,
            old(self).output_buffer@.is_prefix_of(final(self).output_buffer@),
            spec_eval_stmts(*old(self), stmts@, *final(self), r),
        decreases self.depth, stmts_height(stmts@), 1int,
    {
        let ghost ev0 = *self;
        let n = stmts.len();
        if n == 0 {
            return Ok(());
        }
        let mut i: usize = 0;
        proof {
            assert(stmts@.subrange(0, 0) =~= Seq::<Statement>::empty());
        }
        while i < n
            invariant
                ev0 == *old(self),
                self.wf(),
                n == stmts@.len(),
                i <= n,
                self.depth == ev0.depth,
                ev0.output_buffer@.is_prefix_of(self.output_buffer@),
                spec_eval_stmts(ev0, stmts@.subrange(0, i as int), *self, Ok(())),
            decreases n - i,
        {
            proof {
                crate::ast::lemma_stmt_height_elem(stmts@, i as int);
            }
            let ghost cur = *self;
            match self.evaluate_statement(&stmts[i]) {
                Ok(_) => {
                    proof {
                        lemma_eval_stmts_snoc(
                            ev0,
                            stmts@.subrange(0, i as int),
                            cur,
                            stmts@[i as int],
                            *self,
                            Ok(()),
                        );
                        assert(stmts@.subrange(0, i as int).push(stmts@[i as int]) =~= stmts@
                            .subrange(0, i + 1));
                    }
                },
                Err(e) => {
                    proof {
                        lemma_eval_stmts_error_extends(
                            ev0,
                            stmts@,
                            i as int,
                            cur,
                            *self,
                            e,
                        );
                    }
                    return Err(e);
                },
            }
            i = i + 1;
        }
        proof {
            assert(stmts@.subrange(0, n as int) =~= stmts@);
        }
        Ok(())
    }

    /// Evaluate one statement: resolve its arguments, reject duplicate
    /// derived names, resolve the target, then dispatch to a built-in
    /// operation or a dynamically loaded function script; exactly what this
    /// allows is `spec_eval_stmt`.
    pub fn evaluate_statement(&mut self, stmt: &Statement) -> (r: Result<(), BuclError>)
        requires
            old(self).wf(),
        ensures
            final(self).wf(),
            final(self).depth == old(self).depth,
            old(self).output_buffer@.is_prefix_of(final(self).output_buffer@),
            spec_eval_stmt(*old(self), *stmt, *final(self), r),
            has_dup_names(spec_args(old(self).variables@, params_view(stmt.args@))) ==> (
            r matches Err(e) && e is RuntimeError),
            ({
                &&& !has_dup_names(spec_args(old(self).variables@, params_view(stmt.args@)))
                &&& lookup_builtin(reg_view(old(self).functions@), stmt.function@) is None
                &&& !old(self).embedded_functions.as_map().contains_key(stmt.function@)
            }) ==> (r matches Err(e) && e matches BuclError::UnknownFunction(n) && n@
                == stmt.function@),
            ({
                &&& !has_dup_names(spec_args(old(self).variables@, params_view(stmt.args@)))
                &&& lookup_builtin(reg_view(old(self).functions@), stmt.function@) == Some(
                    Builtin::Assign,
                )
                &&& stmt.target is Some
            }) ==> ({
                &&& r is Ok
                &&& final(self).vars_map() == crate::functions::assign::assign_map(
                    old(self).vars_map(),
                    spec_target_name(old(self).vars_map(), stmt.target->Some_0@),
                    values_of(spec_args(old(self).variables@, params_view(stmt.args@))),
                )
            }),
        decreases self.depth, stmt_height(*stmt), 0int,
    {
        let ghost ev0 = *self;
        let resolved = self.eval_params_with_names(stmt.args.as_slice());
        let ghost av = args_view(resolved@);
        match check_duplicate_names(resolved.as_slice()) {
            Ok(_) => {},
            Err(e) => {
                proof {
                    assert(spec_eval_stmt(ev0, *stmt, *self, Err(e)));
                }
                return Err(e);
            },
        }

        // Flat values for built-in operations.
        let mut values: Vec<String> = Vec::new();
        let rn = resolved.len();
        let mut vi: usize = 0;
        while vi < rn
            invariant
                rn == resolved@.len(),
                av == args_view(resolved@),
                vi <= rn,
                values@.len() == vi,
                seq_views(values@) == values_of(av).subrange(0, vi as int),
            decreases rn - vi,
        {
            let v = resolved[vi].value.clone();
            values.push(v);
            proof {
                assert(seq_views(values@) =~= values_of(av).subrange(0, vi + 1));
            }
            vi = vi + 1;
        }
        proof {
            assert(values_of(av).subrange(0, values_of(av).len() as int) =~= values_of(av));
        }

        // The named-argument context of this one dispatch.
        let mut named = VarStore::new();
        let mut ni: usize = 0;
        proof {
            assert(av.subrange(0, 0) =~= Seq::<ArgV>::empty());
        }
        while ni < rn
            invariant
                rn == resolved@.len(),
                av == args_view(resolved@),
                ni <= rn,
                named.wf(),
                named.as_map() == named_map_of(av.subrange(0, ni as int)),
            decreases rn - ni,
        {
            proof {
                assert(av.subrange(0, ni + 1).drop_last() =~= av.subrange(0, ni as int));
                assert(av.subrange(0, ni + 1).last() == av[ni as int]);
            }
            if let Some(nm) = &resolved[ni].name {
                let v = resolved[ni].value.clone();
                named.insert(nm.as_str(), v);
            }
            ni = ni + 1;
        }
        proof {
            assert(av.subrange(0, rn as int) =~= av);
        }
        self.call_named_args = named;
        let ghost pre2 = *self;
        proof {
            assert(eq_except_named(ev0, pre2));
        }

        // Resolve the target name, which may itself contain references.
        let resolved_target: Option<String> = match &stmt.target {
            Some(t) => {
                let tc = str_chars(t.as_str());
                if contains_char(tc.as_slice(), '{') {
                    Some(self.interpolate(t.as_str()))
                } else {
                    Some(t.clone())
                }
            },
            None => None,
        };
        let ghost rt: Option<Seq<char>> = match &stmt.target {
            Some(t) => Some(spec_target_name(ev0.vars_map(), t@)),
            None => None,
        };
        proof {
            assert(opt_str_view(resolved_target) == rt);
        }

        match self.find_function(stmt.function.as_str()) {
            Some(b) => {
                let block_ref: Option<&[Statement]> = match &stmt.block {
                    Some(bb) => Some(bb.as_slice()),
                    None => None,
                };
                let cont_ref: Option<&Statement> = match &stmt.continuation {
                    Some(c) => Some(&**c),
                    None => None,
                };
                proof {
                    assert(crate::functions::opt_block_height(block_ref)
                        + crate::functions::opt_cont_height(cont_ref) < stmt_height(*stmt));
                }
                let result = b.call(
                    self,
                    match &resolved_target {
                        Some(t) => Some(t.as_str()),
                        None => None,
                    },
                    values,
                    block_ref,
                    cont_ref,
                );
                let ghost mid = *self;
                match result {
                    Ok(res) => {
                        let ghost resv = res;
                        self.call_named_args = VarStore::new();
                        let ghost mid2 = *self;
                        if let Some(t) = &resolved_target {
                            if let Some(v) = res {
                                self.set_var(t.as_str(), v);
                            }
                        }
                        proof {
                            assert(eq_except_named(mid, mid2));
                            assert(witness_eval(mid2));
                            assert(dispatch_finish(mid, rt, Ok(resv), true, *self, Ok(())));
                            assert(witness_eval(pre2));
                            assert(witness_call(mid, Ok(resv)));
                            assert(builtin_step(
                                b,
                                pre2,
                                mid,
                                rt,
                                values_of(av),
                                match stmt.block {
                                    Some(bb) => Some(bb@),
                                    None => None,
                                },
                                match stmt.continuation {
                                    Some(c) => Some(*c),
                                    None => None,
                                },
                                Ok(resv),
                            ));
                            assert(spec_eval_stmt(ev0, *stmt, *self, Ok(())));
                        }
                        Ok(())
                    },
                    Err(e) => {
                        proof {
                            assert(dispatch_finish(mid, rt, Err(e), true, *self, Err(e)));
                            assert(witness_eval(pre2));
                            assert(witness_call(mid, Err(e)));
                            assert(spec_eval_stmt(ev0, *stmt, *self, Err(e)));
                        }
                        Err(e)
                    },
                }
            },
            None => {
                self.call_named_args = VarStore::new();
                let ghost pre3 = *self;
                proof {
                    assert(eq_except_named(ev0, pre3));
                }
                let result = self.call_bucl_function(
                    stmt.function.as_str(),
                    match &resolved_target {
                        Some(t) => Some(t.as_str()),
                        None => None,
                    },
                    resolved,
                );
                let ghost mid = *self;
                match result {
                    Ok(res) => {
                        let ghost resv = res;
                        if let Some(t) = &resolved_target {
                            if let Some(v) = res {
                                self.set_var(t.as_str(), v);
                            }
                        }
                        proof {
                            assert(witness_eval(mid));
                            assert(dispatch_finish(mid, rt, Ok(resv), false, *self, Ok(())));
                            assert(witness_eval(pre2));
                            assert(witness_eval(pre3));
                            assert(witness_call(mid, Ok(resv)));
                            assert(spec_eval_stmt(ev0, *stmt, *self, Ok(())));
                        }
                        Ok(())
                    },
                    Err(e) => {
                        proof {
                            assert(dispatch_finish(mid, rt, Err(e), false, *self, Err(e)));
                            assert(witness_eval(pre2));
                            assert(witness_eval(pre3));
                            assert(witness_call(mid, Err(e)));
                            assert(spec_eval_stmt(ev0, *stmt, *self, Err(e)));
                        }
                        Err(e)
                    },
                }
            },
        }
    }

    /// Find a loadable function script by name: the in-memory table the
    /// host filled in beforehand.
    fn find_bucl_function(&self, name: &str) -> (r: Option<String>)
        requires
            self.wf(),
        ensures
            match r {
                Some(src) => self.embedded_functions.as_map().contains_key(name@) && src@
                    == self.embedded_functions.as_map()[name@],
                None => !self.embedded_functions.as_map().contains_key(name@),
            },
    {
        match self.embedded_functions.get(name) {
            Some(src) => Some(src.clone()),
            None => None,
        }
    }

    /// Execute a dynamically loaded function script in an isolated child
    /// scope, per the calling convention: positional values, `argc`, the
    /// structured `args` variable, derived-named arguments and `target` are
    /// injected; afterwards the child's output is appended, its file table
    /// adopted, and its `return` and `return/...` variables harvested.
    /// Exactly what this allows is `script_step`.
    fn call_bucl_function(
        &mut self,
        name: &str,
        target: Option<&str>,
        resolved_args: Vec<ResolvedArg>,
    ) -> (r: Result<Option<String>, BuclError>)
        requires
            old(self).wf(),
        ensures
            final(self).wf(),
            final(self).depth == old(self).depth,
            old(self).output_buffer@.is_prefix_of(final(self).output_buffer@),
            script_step(
                *old(self),
                name@,
                match target {
                    Some(t) => Some(t@),
                    None => None,
                },
                args_view(resolved_args@),
                *final(self),
                r,
            ),
        decreases self.depth, 0nat, 0nat, 0int,
    {
        let ghost ev0 = *self;
        let ghost av = args_view(resolved_args@);
        let ghost tgtv: Option<Seq<char>> = match target {
            Some(t) => Some(t@),
            None => None,
        };
        let source = match self.find_bucl_function(name) {
            Some(src) => src,
            None => {
                return Err(BuclError::UnknownFunction(string_of(str_chars(name).as_slice())));
            },
        };
        if self.depth == 0 {
            return Err(
                BuclError::RuntimeError(String::from_str("function call nesting is too deep")),
            );
        }
        let stmts = match crate::parser::parse(source.as_str()) {
            Ok(s) => s,
            Err(e) => {
                return Err(e);
            },
        };

        // An isolated child scope: same providers, its own variables.
        let mut child = Evaluator::new();
        child.depth = self.depth - 1;
        child.base_dir = match &self.base_dir {
            Some(d) => Some(d.clone()),
            None => None,
        };
        child.embedded_functions = self.embedded_functions.duplicate();
        child.files = self.files.duplicate();
        crate::functions::register_all(&mut child);

        let mut values: Vec<String> = Vec::new();
        let an = resolved_args.len();
        let mut ai: usize = 0;
        while ai < an
            invariant
                an == resolved_args@.len(),
                av == args_view(resolved_args@),
                ai <= an,
                values@.len() == ai,
                seq_views(values@) == values_of(av).subrange(0, ai as int),
            decreases an - ai,
        {
            let v = resolved_args[ai].value.clone();
            values.push(v);
            proof {
                assert(seq_views(values@) =~= values_of(av).subrange(0, ai + 1));
            }
            ai = ai + 1;
        }
        proof {
            assert(values_of(av).subrange(0, values_of(av).len() as int) =~= values_of(av));
        }
        let ghost vals = values_of(av);

        let ghost d0 = self.depth;
        let argc_text = string_of(usize_to_dec(values.len()).as_slice());
        child.variables.insert("argc", argc_text.clone());
        let ghost m1 = Map::<Seq<char>, Seq<char>>::empty().insert("argc"@, dec_rep(vals.len()));
        proof {
            assert(map_of(Seq::<EntryV>::empty()) =~= Map::<Seq<char>, Seq<char>>::empty());
            assert(child.vars_map() == m1);
        }
        let vn = values.len();
        let mut pi: usize = 0;
        while pi < vn
            invariant
                ev0 == *old(self),
                vn == values@.len(),
                vals == seq_views(values@),
                pi <= vn,
                child.wf(),
                child.vars_map() == insert_positional(m1, vals, pi as nat),
                child.depth == d0 - 1,
                child.embedded_functions@ == ev0.embedded_functions@,
                child.files@ == ev0.files@,
                child.base_dir == ev0.base_dir,
                child.output_buffer@ == Seq::<String>::empty(),
                child.call_named_args.as_map() == Map::<Seq<char>, Seq<char>>::empty(),
            decreases vn - pi,
        {
            let key = string_of(usize_to_dec(pi).as_slice());
            let v = values[pi].clone();
            child.variables.insert(key.as_str(), v);
            pi = pi + 1;
        }
        let args_joined = crate::text::join_strings(&values, "");
        let args_len = args_joined.as_str().unicode_len();
        proof {
            reveal_strlit("");
            assert(""@ =~= Seq::<char>::empty());
            crate::text::lemma_join_empty_len(vals);
        }
        child.variables.insert("args", args_joined);
        child.variables.insert("args/count", argc_text);
        child.variables.insert("args/length", string_of(usize_to_dec(args_len).as_slice()));
        let ghost m3 = insert_positional(m1, vals, vals.len()).insert(
            "args"@,
            join_seqs(vals, Seq::<char>::empty()),
        ).insert("args/count"@, dec_rep(vals.len())).insert(
            "args/length"@,
            dec_rep(crate::text::total_len(vals)),
        );
        proof {
            assert(child.vars_map() == m3);
        }
        let mut qi: usize = 0;
        while qi < vn
            invariant
                ev0 == *old(self),
                vn == values@.len(),
                vals == seq_views(values@),
                qi <= vn,
                child.wf(),
                child.vars_map() == insert_args_indexed(m3, vals, qi as nat),
                child.depth == d0 - 1,
                child.embedded_functions@ == ev0.embedded_functions@,
                child.files@ == ev0.files@,
                child.base_dir == ev0.base_dir,
                child.output_buffer@ == Seq::<String>::empty(),
                child.call_named_args.as_map() == Map::<Seq<char>, Seq<char>>::empty(),
            decreases vn - qi,
        {
            let mut key = String::from_str("args/");
            key.append(string_of(usize_to_dec(qi).as_slice()).as_str());
            let v = values[qi].clone();
            child.variables.insert(key.as_str(), v);
            qi = qi + 1;
        }
        let ghost m4 = insert_args_indexed(m3, vals, vals.len());
        let mut di: usize = 0;
        while di < an
            invariant
                ev0 == *old(self),
                an == resolved_args@.len(),
                av == args_view(resolved_args@),
                di <= an,
                child.wf(),
                child.vars_map() == insert_named_args(m4, av, di as nat),
                child.depth == d0 - 1,
                child.embedded_functions@ == ev0.embedded_functions@,
                child.files@ == ev0.files@,
                child.base_dir == ev0.base_dir,
                child.output_buffer@ == Seq::<String>::empty(),
                child.call_named_args.as_map() == Map::<Seq<char>, Seq<char>>::empty(),
            decreases an - di,
        {
            if let Some(nm) = &resolved_args[di].name {
                let v = resolved_args[di].value.clone();
                child.variables.insert(nm.as_str(), v);
            }
            di = di + 1;
        }
        if let Some(t) = target {
            child.variables.insert("target", string_of(str_chars(t).as_slice()));
        }
        proof {
            assert(child.vars_map() == child_init_map(av, tgtv));
            assert(child_scope(ev0, tgtv, av, child));
        }

        let ghost child0 = child;
        let result = child.evaluate_statements(stmts.as_slice());
        let ghost childp = child;
        let ghost rres = result;

        // Output and the file table flow back even when the child failed.
        self.output_buffer.append(&mut child.output_buffer);
        self.files = child.files;
        match result {
            Ok(_) => {},
            Err(e) => {
                proof {
                    assert(script_step(ev0, name@, tgtv, av, *self, Err(e))) by {
                        assert(crate::ast::stmts_view(stmts@) == crate::parser::parse_spec(
                            ev0.embedded_functions.as_map()[name@],
                        )->Some_0);
                        assert(spec_eval_stmts(child0, stmts@, childp, Err(e)));
                        assert(witness_script(stmts@, child0, childp, Err(e)));
                    }
                }
                return Err(e);
            },
        }

        let return_val: Option<String> = match child.variables.get("return") {
            Some(v) => Some(v.clone()),
            None => None,
        };
        let ghost childm = childp.vars_map();
        match target {
            Some(prefix) => {
                if let Some(val) = &return_val {
                    self.set_var(prefix, val.clone());
                }
                let ghost base_m = self.vars_map();
                proof {
                    assert(base_m == match (if childm.contains_key("return"@) {
                        Some(childm["return"@])
                    } else {
                        None
                    }) {
                        Some(rv) => set_map(ev0.vars_map(), prefix@, rv),
                        None => ev0.vars_map(),
                    });
                }
                // Copy `return/...` keys to the target's namespace, after the
                // primary store so they may override its metadata.
                let rprefix = str_chars("return/");
                let ghost ce = child.variables@;
                proof {
                    assert(childm == map_of(ce));
                }
                let en = child.variables.entries.len();
                let mut ki: usize = 0;
                while ki < en
                    invariant
                        ev0 == *old(self),
                        self.wf(),
                        self.depth == ev0.depth,
                        ev0.output_buffer@.is_prefix_of(self.output_buffer@),
                        self.output_buffer@ == ev0.output_buffer@ + childp.output_buffer@,
                        self.files == childp.files,
                        self.functions == ev0.functions,
                        self.embedded_functions == ev0.embedded_functions,
                        self.base_dir == ev0.base_dir,
                        self.call_named_args == ev0.call_named_args,
                        en == child.variables.entries@.len(),
                        ki <= en,
                        child.variables@ == ce,
                        child.variables.wf(),
                        childm == map_of(ce),
                        rprefix@ == "return/"@,
                        forall|j: int|
                            0 <= j < ki && is_ret_key(ce[j].0) ==> self.vars_map().contains_key(
                                prefix@ + "/"@ + ce[j].0.skip("return/"@.len() as int),
                            ) && self.vars_map()[prefix@ + "/"@ + ce[j].0.skip(
                                "return/"@.len() as int,
                            )] == ce[j].1,
                        forall|k: Seq<char>|
                            !is_harvest_key(prefix@, childm, k) ==> (
                            #[trigger] self.vars_map().contains_key(k) == base_m.contains_key(k))
                                && (base_m.contains_key(k) ==> self.vars_map()[k] == base_m[k]),
                    decreases en - ki,
                {
                    let key_chars = str_chars(child.variables.entries[ki].0.as_str());
                    if key_chars.len() >= rprefix.len() {
                        let kp = slice_subrange(key_chars.as_slice(), 0, rprefix.len());
                        if crate::text::chars_eq(kp, rprefix.as_slice()) {
                            let suffix = slice_subrange(
                                key_chars.as_slice(),
                                rprefix.len(),
                                key_chars.len(),
                            );
                            let ghost sfx = ce[ki as int].0.skip("return/"@.len() as int);
                            let mut new_key = string_of(str_chars(prefix).as_slice());
                            new_key.append("/");
                            new_key.append(string_of(suffix).as_str());
                            proof {
                                reveal_strlit("/");
                                reveal_strlit("return/");
                                assert(suffix@ == sfx);
                                assert(new_key@ == prefix@ + "/"@ + sfx);
                                assert(ce[ki as int].0 =~= "return/"@ + sfx);
                                crate::store::lemma_map_of_index(ce, ki as int);
                                assert(childm.contains_key("return/"@ + sfx));
                                assert(is_harvest_key(prefix@, childm, new_key@)) by {
                                    assert((prefix@ + "/"@ + sfx).subrange(
                                        0,
                                        (prefix@.len() + 1) as int,
                                    ) =~= prefix@ + "/"@);
                                    assert((prefix@ + "/"@ + sfx).skip(
                                        (prefix@.len() + 1) as int,
                                    ) =~= sfx);
                                }
                            }
                            let v = child.variables.entries[ki].1.clone();
                            let ghost before_m = self.vars_map();
                            self.variables.insert(new_key.as_str(), v);
                            proof {
                                reveal_strlit("/");
                                reveal_strlit("return/");
                                assert forall|k: Seq<char>|
                                    !is_harvest_key(prefix@, childm, k) implies (
                                    self.vars_map().contains_key(k) == base_m.contains_key(k))
                                    && (base_m.contains_key(k) ==> self.vars_map()[k]
                                    == base_m[k]) by {
                                    if k == new_key@ {
                                        assert(is_harvest_key(prefix@, childm, k));
                                    } else {
                                        assert(self.vars_map().contains_key(k)
                                            == before_m.contains_key(k));
                                    }
                                }
                                assert forall|j: int|
                                    0 <= j < ki + 1 && is_ret_key(ce[j].0) implies self.vars_map()
                                    .contains_key(
                                    prefix@ + "/"@ + ce[j].0.skip("return/"@.len() as int),
                                ) && self.vars_map()[prefix@ + "/"@ + ce[j].0.skip(
                                    "return/"@.len() as int,
                                )] == ce[j].1 by {
                                    if j < ki {
                                        let sj = ce[j].0.skip("return/"@.len() as int);
                                        if prefix@ + "/"@ + sj == prefix@ + "/"@ + sfx {
                                            assert(sj =~= (prefix@ + "/"@ + sj).skip(
                                                (prefix@.len() + 1) as int,
                                            ));
                                            assert(sfx =~= (prefix@ + "/"@ + sfx).skip(
                                                (prefix@.len() + 1) as int,
                                            ));
                                            assert(ce[j].0 =~= "return/"@ + sj);
                                            assert(ce[j].0 == ce[ki as int].0);
                                        }
                                    }
                                }
                            }
                        }
                    }
                    ki = ki + 1;
                }
                proof {
                    reveal_strlit("/");
                    reveal_strlit("return/");
                    assert(harvest(ev0, childp, tgtv, *self, Ok(None))) by {
                        assert forall|sfx: Seq<char>| #[trigger]
                            childm.contains_key("return/"@ + sfx) implies self.vars_map()
                            .contains_key(prefix@ + "/"@ + sfx) && self.vars_map()[prefix@ + "/"@
                            + sfx] == childm["return/"@ + sfx] by {
                            crate::store::lemma_map_of_domain(ce, "return/"@ + sfx);
                            let j = choose|j: int|
                                0 <= j < ce.len() && ce[j].0 == "return/"@ + sfx;
                            assert(is_ret_key(ce[j].0)) by {
                                assert(("return/"@ + sfx).subrange(0, "return/"@.len() as int)
                                    =~= "return/"@);
                            }
                            assert(ce[j].0.skip("return/"@.len() as int) =~= sfx);
                            crate::store::lemma_map_of_index(ce, j);
                        }
                    }
                    assert(script_step(ev0, name@, tgtv, av, *self, Ok(None))) by {
                        assert(crate::ast::stmts_view(stmts@) == crate::parser::parse_spec(
                            ev0.embedded_functions.as_map()[name@],
                        )->Some_0);
                        lemma_ok_unit(rres);
                        assert(spec_eval_stmts(child0, stmts@, childp, Ok(())));
                        assert(witness_script(stmts@, child0, childp, Ok(())));
                    }
                }
                Ok(None)
            },
            None => {
                proof {
                    assert(harvest(ev0, childp, tgtv, *self, Ok(return_val)));
                    assert(script_step(ev0, name@, tgtv, av, *self, Ok(return_val))) by {
                        assert(crate::ast::stmts_view(stmts@) == crate::parser::parse_spec(
                            ev0.embedded_functions.as_map()[name@],
                        )->Some_0);
                        lemma_ok_unit(rres);
                        assert(spec_eval_stmts(child0, stmts@, childp, Ok(())));
                        assert(witness_script(stmts@, child0, childp, Ok(())));
                    }
                }
                Ok(return_val)
            },
        }
    }
}


/// Whether a child key is a `return/` sub-key.
pub open spec fn is_ret_key(k: Seq<char>) -> bool {
    k.len() >= "return/"@.len() && k.subrange(0, "return/"@.len() as int) == "return/"@
}

// ---------------------------------------------------------------------------
// The big-step meaning of evaluation
// ---------------------------------------------------------------------------
//
// Evaluation is nondeterministic (a random draw, a drawn value stored), so
// its meaning is a relation: these spec functions say which final states and
// results one evaluation step allows, and every evaluation entry point
// ensures the relation between its old and final state.

/// Trigger markers: trivially true, they only name the witnesses of the
/// existentials below so that provers and proofs agree on instantiations.
pub open spec fn witness_eval(e: Evaluator) -> bool {
    true
}

pub open spec fn witness_res(r0: Result<(), BuclError>) -> bool {
    true
}

pub open spec fn witness_pair(mid: Evaluator, r0: Result<(), BuclError>) -> bool {
    true
}

pub open spec fn witness_call(mid: Evaluator, br: Result<Option<String>, BuclError>) -> bool {
    true
}

pub open spec fn witness_iter(k: nat, mid: Evaluator, e: BuclError) -> bool {
    true
}

pub open spec fn witness_script(
    stmts: Seq<Statement>,
    child0: Evaluator,
    childp: Evaluator,
    r0: Result<(), BuclError>,
) -> bool {
    true
}

/// The size of an optional owned block.
pub open spec fn opt_seq_height(b: Option<Seq<Statement>>) -> nat {
    match b {
        Some(ss) => stmts_height(ss),
        None => 0,
    }
}

/// The size of an optional owned continuation.
pub open spec fn opt_stmt_height(c: Option<Statement>) -> nat {
    match c {
        Some(s) => stmt_height(s),
        None => 0,
    }
}

/// The repeat count a dispatch would use, zero when absent or unreadable;
/// only a termination measure.
pub open spec fn repeat_count_val(named: Map<Seq<char>, Seq<char>>, values: Seq<Seq<char>>) -> nat {
    match crate::functions::repeat::repeat_count_arg(named, values) {
        Some(cs) => if parses_as_usize(cs) {
            dec_val(cs)
        } else {
            0
        },
        None => 0,
    }
}

/// A block run from `cur` after its variables moved to `m2`: some state
/// with those variables evaluates the block's statements.
pub open spec fn block_run(
    cur: Evaluator,
    m2: Map<Seq<char>, Seq<char>>,
    block: Seq<Statement>,
    post: Evaluator,
    r0: Result<(), BuclError>,
) -> bool
    decreases cur.depth, stmts_height(block), 3nat, 2int,
{
    exists|cur2: Evaluator|
        {
            &&& #[trigger] witness_eval(cur2)
            &&& cur2.depth == cur.depth
            &&& eq_except_vars(cur, cur2)
            &&& cur2.vars_map() == m2
            &&& cur2.variables.wf()
            &&& spec_eval_stmts(cur2, block, post, r0)
        }
}

/// The first `j` iterations of an `each`, all succeeding: before each, the
/// 0-based `index` and the current `value` are stored.
pub open spec fn each_iters(
    start: Evaluator,
    prefix: Seq<char>,
    items: Seq<Seq<char>>,
    block: Seq<Statement>,
    j: nat,
    post: Evaluator,
) -> bool
    decreases start.depth, stmts_height(block), j + 4, 3int,
{
    if j == 0 {
        post == start
    } else {
        exists|mid: Evaluator|
            {
                &&& #[trigger] witness_eval(mid)
                &&& mid.depth == start.depth
                &&& each_iters(start, prefix, items, block, (j - 1) as nat, mid)
                &&& block_run(
                    mid,
                    mid.vars_map().insert(prefix + "/index"@, dec_rep((j - 1) as nat)).insert(
                        prefix + "/value"@,
                        items[j - 1],
                    ),
                    block,
                    post,
                    Ok(()),
                )
            }
    }
}

/// The first `j` iterations of a `repeat`, all succeeding: before each, the
/// 1-based `index` is stored.
pub open spec fn repeat_iters(
    start: Evaluator,
    prefix: Seq<char>,
    block: Seq<Statement>,
    j: nat,
    post: Evaluator,
) -> bool
    decreases start.depth, stmts_height(block), j + 4, 3int,
{
    if j == 0 {
        post == start
    } else {
        exists|mid: Evaluator|
            {
                &&& #[trigger] witness_eval(mid)
                &&& mid.depth == start.depth
                &&& repeat_iters(start, prefix, block, (j - 1) as nat, mid)
                &&& block_run(
                    mid,
                    mid.vars_map().insert(prefix + "/index"@, dec_rep(j)),
                    block,
                    post,
                    Ok(()),
                )
            }
    }
}

/// One more successful `each` iteration extends the chain.
pub proof fn lemma_each_iters_step(
    start: Evaluator,
    prefix: Seq<char>,
    items: Seq<Seq<char>>,
    block: Seq<Statement>,
    j: nat,
    mid: Evaluator,
    post: Evaluator,
)
    requires
        each_iters(start, prefix, items, block, j, mid),
        mid.depth == start.depth,
        block_run(
            mid,
            mid.vars_map().insert(prefix + "/index"@, dec_rep(j)).insert(
                prefix + "/value"@,
                items[j as int],
            ),
            block,
            post,
            Ok(()),
        ),
    ensures
        each_iters(start, prefix, items, block, (j + 1) as nat, post),
{
    let jn: nat = (j + 1) as nat;
    assert((jn - 1) as nat == j);
    assert(witness_eval(mid));
    assert(each_iters(start, prefix, items, block, (jn - 1) as nat, mid));
    assert(block_run(
        mid,
        mid.vars_map().insert(prefix + "/index"@, dec_rep((jn - 1) as nat)).insert(
            prefix + "/value"@,
            items[jn - 1],
        ),
        block,
        post,
        Ok(()),
    ));
    assert(each_iters(start, prefix, items, block, jn, post));
}

/// One more successful `repeat` iteration extends the chain.
pub proof fn lemma_repeat_iters_step(
    start: Evaluator,
    prefix: Seq<char>,
    block: Seq<Statement>,
    j: nat,
    mid: Evaluator,
    post: Evaluator,
)
    requires
        repeat_iters(start, prefix, block, j, mid),
        mid.depth == start.depth,
        block_run(
            mid,
            mid.vars_map().insert(prefix + "/index"@, dec_rep((j + 1) as nat)),
            block,
            post,
            Ok(()),
        ),
    ensures
        repeat_iters(start, prefix, block, (j + 1) as nat, post),
{
    let jn: nat = (j + 1) as nat;
    assert((jn - 1) as nat == j);
    assert(witness_eval(mid));
    assert(repeat_iters(start, prefix, block, (jn - 1) as nat, mid));
    assert(block_run(
        mid,
        mid.vars_map().insert(prefix + "/index"@, dec_rep(jn)),
        block,
        post,
        Ok(()),
    ));
    assert(repeat_iters(start, prefix, block, jn, post));
}

/// What a dispatched `if`/`elseif` means: the three-argument condition
/// decides (anything else counts as false); on true the block runs, on
/// false the continuation; a failure inside propagates.
pub open spec fn if_step(
    pre: Evaluator,
    post: Evaluator,
    values: Seq<Seq<char>>,
    block: Option<Seq<Statement>>,
    cont: Option<Statement>,
    r: Result<Option<String>, BuclError>,
) -> bool
    decreases pre.depth, opt_seq_height(block) + opt_stmt_height(cont), 3nat, 4int,
{
    let cond = values.len() == 3 && crate::functions::if_fn::spec_condition(
        values[0],
        values[1],
        values[2],
    );
    if cond {
        match block {
            Some(b) => exists|r0: Result<(), BuclError>|
                {
                    &&& #[trigger] witness_res(r0)
                    &&& spec_eval_stmts(pre, b, post, r0)
                    &&& match r0 {
                        Ok(_) => r matches Ok(v) && v is None,
                        Err(e) => r == Err::<Option<String>, BuclError>(e),
                    }
                },
            None => post == pre && (r matches Ok(v) && v is None),
        }
    } else {
        match cont {
            Some(c) => exists|r0: Result<(), BuclError>|
                {
                    &&& #[trigger] witness_res(r0)
                    &&& spec_eval_stmt(pre, c, post, r0)
                    &&& match r0 {
                        Ok(_) => r matches Ok(v) && v is None,
                        Err(e) => r == Err::<Option<String>, BuclError>(e),
                    }
                },
            None => post == pre && (r matches Ok(v) && v is None),
        }
    }
}

/// What a dispatched `else` means: its block runs unconditionally.
pub open spec fn else_step(
    pre: Evaluator,
    post: Evaluator,
    block: Option<Seq<Statement>>,
    r: Result<Option<String>, BuclError>,
) -> bool
    decreases pre.depth, opt_seq_height(block), 3nat, 4int,
{
    match block {
        Some(b) => exists|r0: Result<(), BuclError>|
            {
                &&& #[trigger] witness_res(r0)
                &&& spec_eval_stmts(pre, b, post, r0)
                &&& match r0 {
                    Ok(_) => r matches Ok(v) && v is None,
                    Err(e) => r == Err::<Option<String>, BuclError>(e),
                }
            },
        None => post == pre && (r matches Ok(v) && v is None),
    }
}

/// What a dispatched `each` means: the bulk store of `each_map`, then one
/// iteration per item; a failing iteration stops the loop with its error.
pub open spec fn each_step(
    pre: Evaluator,
    post: Evaluator,
    target: Option<Seq<char>>,
    values: Seq<Seq<char>>,
    block: Option<Seq<Statement>>,
    r: Result<Option<String>, BuclError>,
) -> bool
    decreases pre.depth, opt_seq_height(block), values.len() + 5, 4int,
{
    let prefix = match target {
        Some(t) => t,
        None => "e"@,
    };
    exists|bulk: Evaluator|
        {
            &&& #[trigger] witness_eval(bulk)
            &&& bulk.depth == pre.depth
            &&& eq_except_vars(pre, bulk)
            &&& bulk.vars_map() == crate::functions::each::each_map(pre.vars_map(), prefix, values)
            &&& bulk.variables.wf()
            &&& match block {
                None => post == bulk && (r matches Ok(v) && v is None),
                Some(b) => {
                    ||| (each_iters(bulk, prefix, values, b, values.len(), post) && (
                    r matches Ok(v) && v is None))
                    ||| (exists|k: nat, mid: Evaluator, e: BuclError|
                        {
                            &&& #[trigger] witness_iter(k, mid, e)
                            &&& k < values.len()
                            &&& mid.depth == pre.depth
                            &&& each_iters(bulk, prefix, values, b, k, mid)
                            &&& block_run(
                                mid,
                                mid.vars_map().insert(prefix + "/index"@, dec_rep(k)).insert(
                                    prefix + "/value"@,
                                    values[k as int],
                                ),
                                b,
                                post,
                                Err(e),
                            )
                            &&& r == Err::<Option<String>, BuclError>(e)
                        })
                },
            }
        }
}

/// What a dispatched `repeat` means: errors for a missing or unreadable
/// count; else the store of `repeat_map`, then that many iterations.
pub open spec fn repeat_step(
    pre: Evaluator,
    post: Evaluator,
    target: Option<Seq<char>>,
    values: Seq<Seq<char>>,
    block: Option<Seq<Statement>>,
    r: Result<Option<String>, BuclError>,
) -> bool
    decreases pre.depth, opt_seq_height(block), repeat_count_val(
        pre.call_named_args.as_map(),
        values,
    ) + 5, 4int,
{
    let named = pre.call_named_args.as_map();
    match crate::functions::repeat::repeat_count_arg(named, values) {
        None => post == pre && (r matches Err(e) && e is RuntimeError),
        Some(cs) => if !parses_as_usize(cs) {
            post == pre && (r matches Err(e) && e is RuntimeError)
        } else {
            let c = dec_val(cs);
            let prefix = match target {
                Some(t) => t,
                None => "r"@,
            };
            exists|bulk: Evaluator|
                {
                    &&& #[trigger] witness_eval(bulk)
                    &&& bulk.depth == pre.depth
                    &&& eq_except_vars(pre, bulk)
                    &&& bulk.vars_map() == crate::functions::repeat::repeat_map(
                        pre.vars_map(),
                        prefix,
                        c,
                    )
                    &&& bulk.variables.wf()
                    &&& match block {
                        None => post == bulk && (r matches Ok(v) && v is None),
                        Some(b) => {
                            ||| (repeat_iters(bulk, prefix, b, c, post) && (r matches Ok(v)
                                && v is None))
                            ||| (exists|k: nat, mid: Evaluator, e: BuclError|
                                {
                                    &&& #[trigger] witness_iter(k, mid, e)
                                    &&& k < c
                                    &&& mid.depth == pre.depth
                                    &&& repeat_iters(bulk, prefix, b, k, mid)
                                    &&& block_run(
                                        mid,
                                        mid.vars_map().insert(
                                            prefix + "/index"@,
                                            dec_rep((k + 1) as nat),
                                        ),
                                        b,
                                        post,
                                        Err(e),
                                    )
                                    &&& r == Err::<Option<String>, BuclError>(e)
                                })
                        },
                    }
                }
        },
    }
}

/// What dispatching one built-in means, by operation.
pub open spec fn builtin_step(
    b: Builtin,
    pre: Evaluator,
    post: Evaluator,
    target: Option<Seq<char>>,
    values: Seq<Seq<char>>,
    block: Option<Seq<Statement>>,
    cont: Option<Statement>,
    r: Result<Option<String>, BuclError>,
) -> bool
    decreases pre.depth, opt_seq_height(block) + opt_stmt_height(cont), values.len()
        + repeat_count_val(pre.call_named_args.as_map(), values) + 6, 5int,
{
    match b {
        Builtin::Assign => crate::functions::assign::assign_call_post(pre, post, target, values, r),
        Builtin::Cmp => crate::functions::cmp::cmp_post(pre, post, values, r),
        Builtin::Count => crate::functions::count::count_post(pre, post, values, r),
        Builtin::Each => each_step(pre, post, target, values, block, r),
        Builtin::Echo => crate::functions::echo::echo_post(pre, post, values, r),
        Builtin::GetVar => crate::functions::getvar::getvar_post(pre, post, values, r),
        Builtin::If => if_step(pre, post, values, block, cont, r),
        Builtin::Else => else_step(pre, post, block, r),
        Builtin::Length => crate::functions::length::length_post(pre, post, values, r),
        Builtin::Math => crate::functions::math::math_post(pre, post, values, r),
        Builtin::Random => crate::functions::random::random_post(pre, post, values, r),
        Builtin::ReadFile => crate::functions::readfile::readfile_post(pre, post, values, r),
        Builtin::Repeat => repeat_step(pre, post, target, values, block, r),
        Builtin::SetVar => crate::functions::setvar::setvar_post(pre, post, values, r),
        Builtin::Sleep => crate::functions::sleep::sleep_post(pre, post, values, r),
        Builtin::StrPos => crate::functions::strpos::strpos_post(pre, post, values, r),
        Builtin::Substr => crate::functions::substr::substr_post(pre, post, values, r),
        Builtin::WriteFile => crate::functions::writefile::writefile_post(pre, post, values, r),
    }
}

/// How a dispatch ends: an error propagates as it is; on success the named
/// context is cleared (built-ins clear afterwards, script calls beforehand)
/// and a returned value is stored in the target with the usual metadata.
pub open spec fn dispatch_finish(
    mid: Evaluator,
    rt: Option<Seq<char>>,
    br: Result<Option<String>, BuclError>,
    clear_after: bool,
    post: Evaluator,
    r: Result<(), BuclError>,
) -> bool {
    match br {
        Err(e) => post == mid && r == Err::<(), BuclError>(e),
        Ok(res) => r == Ok::<(), BuclError>(()) && exists|mid2: Evaluator|
            {
                &&& #[trigger] witness_eval(mid2)
                &&& eq_except_named(mid, mid2)
                &&& if clear_after {
                    mid2.call_named_args.as_map() == Map::<Seq<char>, Seq<char>>::empty()
                        && mid2.call_named_args.wf()
                } else {
                    mid2 == mid
                }
                &&& match (rt, res) {
                    (Some(t), Some(v)) => eq_except_vars(mid2, post) && post.vars_map()
                        == set_map(mid2.vars_map(), t, v@) && post.variables.wf(),
                    _ => post == mid2,
                }
            },
    }
}

/// Whether a stored key receives a harvested return sub-value: it sits
/// directly under the target and the child set the matching `return/` key.
pub open spec fn is_harvest_key(
    t: Seq<char>,
    childm: Map<Seq<char>, Seq<char>>,
    k: Seq<char>,
) -> bool {
    &&& k.len() >= t.len() + 1
    &&& k.subrange(0, (t.len() + 1) as int) == t + "/"@
    &&& childm.contains_key("return/"@ + k.skip((t.len() + 1) as int))
}

/// How a finished child scope flows back into the caller: without a target
/// the child's `return` value is the result; with one, the primary value is
/// stored first (writing the usual metadata) and then every `return/<sfx>`
/// is copied to `<target>/<sfx>`, overriding what the primary store wrote.
pub open spec fn harvest(
    pre: Evaluator,
    child: Evaluator,
    target: Option<Seq<char>>,
    post: Evaluator,
    r: Result<Option<String>, BuclError>,
) -> bool {
    let childm = child.vars_map();
    let ret: Option<Seq<char>> = if childm.contains_key("return"@) {
        Some(childm["return"@])
    } else {
        None
    };
    match target {
        None => post.variables == pre.variables && (r matches Ok(v) && opt_str_view(v) == ret),
        Some(t) => {
            let base = match ret {
                Some(rv) => set_map(pre.vars_map(), t, rv),
                None => pre.vars_map(),
            };
            &&& r matches Ok(v) && v is None
            &&& post.variables.wf()
            &&& forall|sfx: Seq<char>| #[trigger]
                childm.contains_key("return/"@ + sfx) ==> post.vars_map().contains_key(
                    t + "/"@ + sfx,
                ) && post.vars_map()[t + "/"@ + sfx] == childm["return/"@ + sfx]
            &&& forall|k: Seq<char>|
                !is_harvest_key(t, childm, k) ==> (#[trigger] post.vars_map().contains_key(k)
                    == base.contains_key(k)) && (base.contains_key(k) ==> post.vars_map()[k]
                    == base[k])
        },
    }
}

/// The positional variables `0 .. k-1` of a child scope.
pub open spec fn insert_positional(
    m: Map<Seq<char>, Seq<char>>,
    vals: Seq<Seq<char>>,
    k: nat,
) -> Map<Seq<char>, Seq<char>>
    decreases k,
{
    if k == 0 {
        m
    } else {
        insert_positional(m, vals, (k - 1) as nat).insert(dec_rep((k - 1) as nat), vals[k - 1])
    }
}

/// The `args/0 .. args/(k-1)` variables of a child scope.
pub open spec fn insert_args_indexed(
    m: Map<Seq<char>, Seq<char>>,
    vals: Seq<Seq<char>>,
    k: nat,
) -> Map<Seq<char>, Seq<char>>
    decreases k,
{
    if k == 0 {
        m
    } else {
        insert_args_indexed(m, vals, (k - 1) as nat).insert(
            "args/"@ + dec_rep((k - 1) as nat),
            vals[k - 1],
        )
    }
}

/// The derived-named arguments injected into a child scope.
pub open spec fn insert_named_args(
    m: Map<Seq<char>, Seq<char>>,
    av: Seq<ArgV>,
    k: nat,
) -> Map<Seq<char>, Seq<char>>
    decreases k,
{
    if k == 0 {
        m
    } else {
        let m2 = insert_named_args(m, av, (k - 1) as nat);
        match av[k - 1].name {
            Some(nm) => m2.insert(nm, av[k - 1].value),
            None => m2,
        }
    }
}

/// The initial variables of a child scope, per the calling convention:
/// `argc`, the positionals, the structured `args` variable, the
/// derived-named arguments, and the caller's `target` name when given.
pub open spec fn child_init_map(av: Seq<ArgV>, target: Option<Seq<char>>) -> Map<
    Seq<char>,
    Seq<char>,
> {
    let vals = values_of(av);
    let n = vals.len();
    let m1 = Map::<Seq<char>, Seq<char>>::empty().insert("argc"@, dec_rep(n));
    let m2 = insert_positional(m1, vals, n);
    let m3 = m2.insert("args"@, join_seqs(vals, Seq::empty())).insert(
        "args/count"@,
        dec_rep(n),
    ).insert("args/length"@, dec_rep(crate::text::total_len(vals)));
    let m4 = insert_args_indexed(m3, vals, n);
    let m5 = insert_named_args(m4, av, av.len());
    match target {
        Some(t) => m5.insert("target"@, t),
        None => m5,
    }
}

/// A freshly built child scope: the calling-convention variables, the
/// caller's providers, empty output, one level less call depth.
pub open spec fn child_scope(
    pre: Evaluator,
    target: Option<Seq<char>>,
    av: Seq<ArgV>,
    c: Evaluator,
) -> bool {
    &&& c.variables.wf()
    &&& c.vars_map() == child_init_map(av, target)
    &&& c.embedded_functions@ == pre.embedded_functions@
    &&& c.files@ == pre.files@
    &&& c.base_dir == pre.base_dir
    &&& c.output_buffer@ == Seq::<String>::empty()
    &&& c.call_named_args.as_map() == Map::<Seq<char>, Seq<char>>::empty()
    &&& c.wf()
}

/// What calling a function script means: an unknown name or an exhausted
/// call depth fails; otherwise the stored source parses (or its parse error
/// propagates), its statements run in a fresh child scope, the child's
/// output is appended, its file table adopted, and its return values
/// harvested.
pub open spec fn script_step(
    pre: Evaluator,
    name: Seq<char>,
    target: Option<Seq<char>>,
    av: Seq<ArgV>,
    post: Evaluator,
    r: Result<Option<String>, BuclError>,
) -> bool
    decreases pre.depth, 0nat, 0nat, 0int,
{
    if !pre.embedded_functions.as_map().contains_key(name) {
        post == pre && (r matches Err(e) && e matches BuclError::UnknownFunction(n) && n@ == name)
    } else if pre.depth == 0 {
        post == pre && (r matches Err(e) && e is RuntimeError)
    } else {
        let src = pre.embedded_functions.as_map()[name];
        match crate::parser::parse_spec(src) {
            None => post == pre && (r matches Err(e) && e is ParseError),
            Some(_) => exists|
                stmts: Seq<Statement>,
                child0: Evaluator,
                childp: Evaluator,
                r0: Result<(), BuclError>,
            |
                {
                    &&& #[trigger] witness_script(stmts, child0, childp, r0)
                    &&& crate::ast::stmts_view(stmts) == crate::parser::parse_spec(src)->Some_0
                    &&& child_scope(pre, target, av, child0)
                    &&& child0.depth == pre.depth - 1
                    &&& spec_eval_stmts(child0, stmts, childp, r0)
                    &&& post.output_buffer@ == pre.output_buffer@ + childp.output_buffer@
                    &&& post.files == childp.files
                    &&& post.functions == pre.functions
                    &&& post.embedded_functions == pre.embedded_functions
                    &&& post.base_dir == pre.base_dir
                    &&& post.call_named_args == pre.call_named_args
                    &&& post.depth == pre.depth
                    &&& match r0 {
                        Err(e) => r == Err::<Option<String>, BuclError>(e) && post.variables
                            == pre.variables,
                        Ok(_) => harvest(pre, childp, target, post, r),
                    }
                },
        }
    }
}

/// What evaluating one statement means: arguments resolve, duplicate
/// derived names fail, the named context is set, the target resolves, and
/// the name dispatches to a built-in or to a function script, whose result
/// is stored.
pub open spec fn spec_eval_stmt(
    pre: Evaluator,
    stmt: Statement,
    post: Evaluator,
    r: Result<(), BuclError>,
) -> bool
    decreases pre.depth, stmt_height(stmt), 0nat, 0int,
{
    let resolved = spec_args(pre.variables@, params_view(stmt.args@));
    if has_dup_names(resolved) {
        post == pre && (r matches Err(e) && e is RuntimeError && dup_error(resolved, e))
    } else {
        let vals = values_of(resolved);
        let rt: Option<Seq<char>> = match stmt.target {
            Some(t) => Some(spec_target_name(pre.vars_map(), t@)),
            None => None,
        };
        let blockv: Option<Seq<Statement>> = match stmt.block {
            Some(b) => Some(b@),
            None => None,
        };
        let contv: Option<Statement> = match stmt.continuation {
            Some(c) => Some(*c),
            None => None,
        };
        exists|pre2: Evaluator|
            {
                &&& #[trigger] witness_eval(pre2)
                &&& pre2.depth == pre.depth
                &&& eq_except_named(pre, pre2)
                &&& pre2.call_named_args.as_map() == named_map_of(resolved)
                &&& pre2.call_named_args.wf()
                &&& match lookup_builtin(reg_view(pre.functions@), stmt.function@) {
                    Some(b) => exists|mid: Evaluator, br: Result<Option<String>, BuclError>|
                        {
                            &&& #[trigger] witness_call(mid, br)
                            &&& builtin_step(b, pre2, mid, rt, vals, blockv, contv, br)
                            &&& dispatch_finish(mid, rt, br, true, post, r)
                        },
                    None => exists|
                        pre3: Evaluator,
                        mid: Evaluator,
                        br: Result<Option<String>, BuclError>,
                    |
                        {
                            &&& #[trigger] witness_eval(pre3)
                            &&& #[trigger] witness_call(mid, br)
                            &&& pre3.depth == pre.depth
                            &&& eq_except_named(pre, pre3)
                            &&& pre3.call_named_args.as_map() == Map::<
                                Seq<char>,
                                Seq<char>,
                            >::empty()
                            &&& pre3.call_named_args.wf()
                            &&& script_step(pre3, stmt.function@, rt, resolved, mid, br)
                            &&& dispatch_finish(mid, rt, br, false, post, r)
                        },
                }
            }
    }
}

/// One step of a statement list: the head runs to `mid` with `r0`; on
/// success the rest runs from there, on failure the list stops with the
/// head's error.
pub open spec fn eval_stmts_link(
    pre: Evaluator,
    stmts: Seq<Statement>,
    post: Evaluator,
    r: Result<(), BuclError>,
    mid: Evaluator,
    r0: Result<(), BuclError>,
) -> bool
    decreases pre.depth, stmts_height(stmts), 1nat, 9int,
{
    if stmts.len() == 0 {
        false
    } else {
        &&& mid.depth == pre.depth
        &&& spec_eval_stmt(pre, stmts[0], mid, r0)
        &&& match r0 {
            Ok(_) => spec_eval_stmts(mid, stmts.drop_first(), post, r),
            Err(e) => post == mid && r == Err::<(), BuclError>(e),
        }
    }
}

/// What evaluating a statement list means: the statements run in order, and
/// the first failure stops the list with its error, keeping every effect of
/// the statements before it.
pub open spec fn spec_eval_stmts(
    pre: Evaluator,
    stmts: Seq<Statement>,
    post: Evaluator,
    r: Result<(), BuclError>,
) -> bool
    decreases pre.depth, stmts_height(stmts), 2nat, 1int,
{
    if stmts.len() == 0 {
        post == pre && r == Ok::<(), BuclError>(())
    } else {
        exists|mid: Evaluator, r0: Result<(), BuclError>|
            {
                &&& #[trigger] witness_pair(mid, r0)
                &&& eval_stmts_link(pre, stmts, post, r, mid, r0)
            }
    }
}


/// A successful unit result is the one `Ok` value.
pub proof fn lemma_ok_unit(r: Result<(), BuclError>)
    requires
        r is Ok,
    ensures
        r == Ok::<(), BuclError>(()),
{
    match r {
        Ok(u) => {
            assert(u == ());
        },
        Err(_) => {
        },
    }
}

/// A successful run of a list, extended by one more statement.
#[verifier::spinoff_prover]
proof fn lemma_eval_stmts_snoc(
    pre: Evaluator,
    ss: Seq<Statement>,
    mid: Evaluator,
    s: Statement,
    post: Evaluator,
    r0: Result<(), BuclError>,
)
    requires
        spec_eval_stmts(pre, ss, mid, Ok(())),
        spec_eval_stmt(mid, s, post, r0),
        mid.depth == pre.depth,
        post.depth == pre.depth,
    ensures
        spec_eval_stmts(
            pre,
            ss.push(s),
            post,
            match r0 {
                Ok(_) => Ok::<(), BuclError>(()),
                Err(e) => Err::<(), BuclError>(e),
            },
        ),
    decreases ss.len(),
{
    let whole = ss.push(s);
    let rr = match r0 {
        Ok(_) => Ok::<(), BuclError>(()),
        Err(e) => Err::<(), BuclError>(e),
    };
    if ss.len() == 0 {
        assert(mid == pre);
        assert(whole[0] == s);
        assert(whole.drop_first() =~= Seq::<Statement>::empty());
        match r0 {
            Ok(_) => {
                lemma_ok_unit(r0);
                assert(spec_eval_stmts(post, whole.drop_first(), post, Ok(())));
                assert(eval_stmts_link(pre, whole, post, rr, post, r0));
            },
            Err(e) => {
                assert(eval_stmts_link(pre, whole, post, rr, post, r0));
            },
        }
        assert(witness_pair(post, r0));
        assert(spec_eval_stmts(pre, whole, post, rr));
    } else {
        let (mid1, rr1) = choose|mid1: Evaluator, rr1: Result<(), BuclError>|
            {
                &&& #[trigger] witness_pair(mid1, rr1)
                &&& eval_stmts_link(pre, ss, mid, Ok(()), mid1, rr1)
            };
        assert(eval_stmts_link(pre, ss, mid, Ok(()), mid1, rr1));
        assert(rr1 is Ok);
        lemma_eval_stmts_snoc(mid1, ss.drop_first(), mid, s, post, r0);
        assert(whole.drop_first() =~= ss.drop_first().push(s));
        assert(whole[0] == ss[0]);
        assert(eval_stmts_link(pre, whole, post, rr, mid1, rr1));
        assert(spec_eval_stmts(pre, whole, post, rr));
    }
}

/// A failure right after a successful prefix is a failure of the whole
/// list: the statements after it are never reached.
#[verifier::spinoff_prover]
proof fn lemma_eval_stmts_error_extends(
    pre: Evaluator,
    stmts: Seq<Statement>,
    i: int,
    cur: Evaluator,
    post: Evaluator,
    e: BuclError,
)
    requires
        0 <= i < stmts.len(),
        spec_eval_stmts(pre, stmts.subrange(0, i), cur, Ok(())),
        spec_eval_stmt(cur, stmts[i], post, Err(e)),
        cur.depth == pre.depth,
        post.depth == pre.depth,
    ensures
        spec_eval_stmts(pre, stmts, post, Err(e)),
    decreases i,
{
    if i == 0 {
        assert(stmts.subrange(0, 0) =~= Seq::<Statement>::empty());
        assert(cur == pre);
        assert(eval_stmts_link(pre, stmts, post, Err(e), post, Err(e)));
        assert(witness_pair(post, Err(e)));
        assert(spec_eval_stmts(pre, stmts, post, Err(e)));
    } else {
        let prefix = stmts.subrange(0, i);
        let (mid1, rr1) = choose|mid1: Evaluator, rr1: Result<(), BuclError>|
            {
                &&& #[trigger] witness_pair(mid1, rr1)
                &&& eval_stmts_link(pre, prefix, cur, Ok(()), mid1, rr1)
            };
        assert(eval_stmts_link(pre, prefix, cur, Ok(()), mid1, rr1));
        assert(rr1 is Ok);
        assert(prefix.drop_first() =~= stmts.drop_first().subrange(0, i - 1));
        assert(stmts[i] == stmts.drop_first()[i - 1]);
        lemma_eval_stmts_error_extends(mid1, stmts.drop_first(), i - 1, cur, post, e);
        assert(prefix[0] == stmts[0]);
        assert(eval_stmts_link(pre, stmts, post, Err(e), mid1, rr1));
        assert(witness_pair(mid1, rr1));
        assert(spec_eval_stmts(pre, stmts, post, Err(e)));
    }
}

/// Find where a suffix belongs in a list sorted by suffix: the first
/// position whose suffix is lexicographically greater.
fn insert_pos(out: &Vec<(String, String)>, item: &[char]) -> (p: usize)
    ensures
        p <= out@.len(),
        forall|q: int| 0 <= q < p ==> !lex_lt(item@, crate::store::entry_views(out@)[q].0),
        p < out@.len() ==> lex_lt(item@, crate::store::entry_views(out@)[p as int].0),
{
    let n = out.len();
    let mut p: usize = 0;
    while p < n
        invariant
            n == out@.len(),
            p <= n,
            forall|q: int| 0 <= q < p ==> !lex_lt(item@, crate::store::entry_views(out@)[q].0),
        decreases n - p,
    {
        let cand = str_chars(out[p].0.as_str());
        if text::lex_lt_exec(item, cand.as_slice()) {
            return p;
        }
        p = p + 1;
    }
    p
}

/// Characterize `insert_sorted` by the insertion point.
proof fn lemma_insert_sorted_at(x: (Seq<char>, Seq<char>), s: Seq<(Seq<char>, Seq<char>)>, p: int)
    requires
        0 <= p <= s.len(),
        forall|q: int| 0 <= q < p ==> !lex_lt(x.0, s[q].0),
        p < s.len() ==> lex_lt(x.0, s[p].0),
    ensures
        insert_sorted(x, s) == s.subrange(0, p) + seq![x] + s.subrange(p, s.len() as int),
    decreases s.len(),
{
    if s.len() == 0 {
        assert(insert_sorted(x, s) =~= s.subrange(0, p) + seq![x] + s.subrange(p, s.len() as int));
    } else if lex_lt(x.0, s[0].0) {
        assert(p == 0);
        assert(insert_sorted(x, s) =~= s.subrange(0, p) + seq![x] + s.subrange(p, s.len() as int));
    } else {
        assert(p >= 1);
        assert(forall|q: int| 0 <= q < p - 1 ==> s.drop_first()[q] == s[q + 1]);
        lemma_insert_sorted_at(x, s.drop_first(), p - 1);
        assert(s.drop_first().subrange(0, p - 1) =~= s.subrange(1, p));
        assert(s.drop_first().subrange(p - 1, s.drop_first().len() as int) =~= s.subrange(
            p,
            s.len() as int,
        ));
        assert(insert_sorted(x, s) == seq![s[0]] + insert_sorted(x, s.drop_first()));
        assert(seq![s[0]] + (s.subrange(1, p) + seq![x] + s.subrange(p, s.len() as int)) =~= s
            .subrange(0, p) + seq![x] + s.subrange(p, s.len() as int));
    }
}


} // verus!
