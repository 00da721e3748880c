//! `=` - store one or more text values into a variable.
//!
//! A single value stores directly; the store writes `count` (as `"1"`) and
//! `length` metadata for root variables. With several values the
//! concatenation is stored, then `count` is overridden with the real number
//! of values and each original value is stored under its 0-based index.

use vstd::prelude::*;
use crate::ast::Statement;
use crate::error::BuclError;
use crate::evaluator::{
    Evaluator, count_key, eq_except_vars, index_key, length_key, spec_resolve,
};
use crate::functions::{Builtin, BuclFunction};
use crate::text::{dec_rep, join_seqs, seq_views, str_chars, string_of, usize_to_dec};

verus! {

/// The indices `prefix/0 .. prefix/(k-1)` written over `m`.
pub open spec fn insert_indexed(
    m: Map<Seq<char>, Seq<char>>,
    prefix: Seq<char>,
    values: Seq<Seq<char>>,
    k: nat,
) -> Map<Seq<char>, Seq<char>>
    decreases k,
{
    if k == 0 {
        m
    } else {
        insert_indexed(m, prefix, values, (k - 1) as nat).insert(
            index_key(prefix, (k - 1) as nat),
            values[k - 1],
        )
    }
}

/// What assigning `values` to `prefix` does to the store: the concatenation
/// is stored with its metadata; several values additionally override `count`
/// and store each value under its index.
pub open spec fn assign_map(
    m: Map<Seq<char>, Seq<char>>,
    prefix: Seq<char>,
    values: Seq<Seq<char>>,
) -> Map<Seq<char>, Seq<char>> {
    let joined = join_seqs(values, Seq::empty());
    let base = if prefix.contains('/') {
        m.insert(prefix, joined)
    } else {
        m.insert(length_key(prefix), dec_rep(joined.len())).insert(count_key(prefix), "1"@).insert(
            prefix,
            joined,
        )
    };
    if values.len() > 1 {
        insert_indexed(base.insert(count_key(prefix), dec_rep(values.len())), prefix, values, values.len())
    } else {
        base
    }
}

/// Index keys are distinct for distinct indices.
proof fn lemma_index_key_injective(name: Seq<char>, a: nat, b: nat)
    requires
        index_key(name, a) == index_key(name, b),
    ensures
        a == b,
{
    crate::text::lemma_dec_rep_digits(a);
    crate::text::lemma_dec_rep_digits(b);
    assert(dec_rep(a) =~= index_key(name, a).skip(name.len() + "/"@.len() as int));
    assert(dec_rep(b) =~= index_key(name, b).skip(name.len() + "/"@.len() as int));
    crate::text::lemma_dec_val_dec_rep(a);
    crate::text::lemma_dec_val_dec_rep(b);
}

/// After writing indices `0..k`, each of them holds its value.
proof fn lemma_insert_indexed_get(
    m0: Map<Seq<char>, Seq<char>>,
    prefix: Seq<char>,
    values: Seq<Seq<char>>,
    k: nat,
    j: nat,
)
    requires
        j < k,
    ensures
        insert_indexed(m0, prefix, values, k).contains_key(index_key(prefix, j)),
        insert_indexed(m0, prefix, values, k)[index_key(prefix, j)] == values[j as int],
    decreases k,
{
    if k - 1 != j {
        lemma_insert_indexed_get(m0, prefix, values, (k - 1) as nat, j);
        if index_key(prefix, (k - 1) as nat) == index_key(prefix, j) {
            lemma_index_key_injective(prefix, (k - 1) as nat, j);
        }
    }
}

/// Writing indices `0..k` touches nothing else.
proof fn lemma_insert_indexed_frame(
    m0: Map<Seq<char>, Seq<char>>,
    prefix: Seq<char>,
    values: Seq<Seq<char>>,
    k: nat,
    key: Seq<char>,
)
    requires
        forall|j: int| 0 <= j < k ==> key != #[trigger] index_key(prefix, j as nat),
    ensures
        insert_indexed(m0, prefix, values, k).contains_key(key) == m0.contains_key(key),
        m0.contains_key(key) ==> insert_indexed(m0, prefix, values, k)[key] == m0[key],
    decreases k,
{
    if k > 0 {
        lemma_insert_indexed_frame(m0, prefix, values, (k - 1) as nat, key);
        assert(key != index_key(prefix, (k - 1) as nat));
    }
}

/// Law: after a multi-value assignment, each index below the count resolves
/// to exactly the original value at that index, and the `count` metadata
/// resolves to the number of values; an index at or beyond the count (and
/// not otherwise set) resolves to the empty string. The map below is exactly
/// what `=` stores with several values.
pub proof fn lemma_multi_assignment_resolution(
    m: Map<Seq<char>, Seq<char>>,
    name: Seq<char>,
    values: Seq<Seq<char>>,
    i: nat,
    fuel: nat,
)
    requires
        !name.contains('/'),
        !name.contains('{'),
        1 < values.len() <= usize::MAX,
        i <= usize::MAX,
        i >= values.len() ==> !m.contains_key(index_key(name, i)),
    ensures
        ({
            let m2 = assign_map(m, name, values);
            &&& spec_resolve(m2, count_key(name), fuel) == dec_rep(values.len())
            &&& i < values.len() ==> spec_resolve(m2, index_key(name, i), fuel) == values[i as int]
            &&& i >= values.len() ==> spec_resolve(m2, index_key(name, i), fuel) == Seq::<char>::empty()
        }),
{
    reveal_strlit("/");
    reveal_strlit("/count");
    reveal_strlit("/length");
    let ik = index_key(name, i);
    let ck = count_key(name);
    let lk = length_key(name);
    let n = values.len();
    crate::text::lemma_dec_rep_digits(i);
    crate::text::lemma_dec_val_dec_rep(i);
    crate::text::lemma_dec_rep_digits(n);
    crate::text::lemma_dec_val_dec_rep(n);

    let joined = join_seqs(values, Seq::<char>::empty());
    let base = m.insert(length_key(name), dec_rep(joined.len())).insert(count_key(name), "1"@)
        .insert(name, joined);
    let base2 = base.insert(ck, dec_rep(n));
    let m2 = assign_map(m, name, values);
    assert(m2 == insert_indexed(base2, name, values, n));

    // Neither the index key nor the count key holds a brace.
    assert(!ik.contains('{')) by {
        if ik.contains('{') {
            let w = choose|w: int| 0 <= w < ik.len() && ik[w] == '{';
            if w < name.len() {
                assert(name[w] == '{');
            } else if w == name.len() {
                assert("/"@[0] == '{');
            } else {
                let d = dec_rep(i)[w - name.len() - 1];
                assert(crate::text::is_digit_char(d));
                assert(d as u32 == '{' as u32);
            }
        }
    }
    assert(!ck.contains('{')) by {
        if ck.contains('{') {
            let w = choose|w: int| 0 <= w < ck.len() && ck[w] == '{';
            if w < name.len() {
                assert(name[w] == '{');
            } else {
                assert("/count"@[w - name.len()] == '{');
            }
        }
    }

    // The count key is none of the index keys: its first suffix character
    // is a letter, theirs is a digit.
    assert forall|j: int| 0 <= j < n implies ck != #[trigger] index_key(name, j as nat) by {
        crate::text::lemma_dec_rep_digits(j as nat);
        let jk = index_key(name, j as nat);
        if ck == jk {
            assert(ck[name.len() as int + 1] == 'c');
            assert(jk[name.len() as int + 1] == dec_rep(j as nat)[0]);
            assert(crate::text::is_digit_char(dec_rep(j as nat)[0]));
            assert('c' as u32 == 99);
        }
    }
    lemma_insert_indexed_frame(base2, name, values, n, ck);
    assert(m2[ck] == dec_rep(n));
    assert(spec_resolve(m2, ck, fuel) == dec_rep(n));

    if i < n {
        lemma_insert_indexed_get(base2, name, values, n, i);
        assert(spec_resolve(m2, ik, fuel) == values[i as int]);
    } else {
        // The index key is absent, so resolution falls back to counting.
        assert forall|j: int| 0 <= j < n implies ik != #[trigger] index_key(name, j as nat) by {
            if ik == index_key(name, j as nat) {
                lemma_index_key_injective(name, i, j as nat);
            }
        }
        lemma_insert_indexed_frame(base2, name, values, n, ik);
        assert(ik != name) by {
            assert(ik.len() > name.len());
        }
        assert(ik != ck && ik != lk) by {
            crate::text::lemma_dec_rep_digits(i);
            if ik == ck {
                assert(ik[name.len() as int + 1] == dec_rep(i)[0]);
                assert(ck[name.len() as int + 1] == 'c');
                assert(crate::text::is_digit_char(dec_rep(i)[0]));
            }
            if ik == lk {
                assert(ik[name.len() as int + 1] == dec_rep(i)[0]);
                assert(lk[name.len() as int + 1] == 'l');
                assert(crate::text::is_digit_char(dec_rep(i)[0]));
            }
        }
        assert(!m2.contains_key(ik));
        // The name splits at its first slash, right after the root name.
        crate::text::lemma_first_idx(ik, '/');
        assert(crate::text::first_idx(ik, '/') == name.len()) by {
            assert(ik[name.len() as int] == '/');
            assert forall|w: int| 0 <= w < name.len() implies ik[w] != '/' by {
                assert(ik[w] == name[w]);
                if name[w] == '/' {
                    assert(name.contains('/'));
                }
            }
            if crate::text::first_idx(ik, '/') < name.len() {
                assert(ik[crate::text::first_idx(ik, '/')] == '/');
            }
            if crate::text::first_idx(ik, '/') > name.len() {
                assert(ik[name.len() as int] != '/');
            }
        }
        assert(ik.subrange(0, name.len() as int) =~= name);
        assert(ik.skip(name.len() as int + 1) =~= dec_rep(i));
        assert(crate::text::parses_as_usize(dec_rep(i)));
        assert(crate::evaluator::spec_count(m2, name) == n);
        assert(spec_resolve(m2, ik, fuel) == Seq::<char>::empty());
    }
}

/// What a dispatched `=` call guarantees: without a target the evaluator is
/// untouched and the concatenation returned; with one, the stores of
/// `assign_map` happen and nothing else changes but the variables.
pub open spec fn assign_call_post(
    pre: Evaluator,
    post: Evaluator,
    target: Option<Seq<char>>,
    values: Seq<Seq<char>>,
    r: Result<Option<String>, BuclError>,
) -> bool {
    match target {
        None => post == pre && (r matches Ok(v) && v matches Some(s) && s@ == join_seqs(
            values,
            Seq::empty(),
        )),
        Some(prefix) => ({
            &&& r matches Ok(v) && v is None
            &&& eq_except_vars(pre, post)
            &&& post.vars_map() == assign_map(pre.vars_map(), prefix, values)
        }),
    }
}

pub struct Assign;

impl BuclFunction for Assign {
    /// With a target, performs the stores itself and returns `Ok(None)`;
    /// without one, just returns the concatenated value.
    fn call(
        &self,
        evaluator: &mut Evaluator,
        target: Option<&str>,
        args: Vec<String>,
        block: Option<&[Statement]>,
        continuation: Option<&Statement>,
    ) -> (r: Result<Option<String>, BuclError>)
        ensures
            assign_call_post(
                *old(evaluator),
                *final(evaluator),
                match target {
                    Some(t) => Some(t@),
                    None => None,
                },
                seq_views(args@),
                r,
            ),
    {
        let value = crate::text::join_strings(&args, "");
        proof {
            reveal_strlit("");
            assert(""@ =~= Seq::<char>::empty());
        }
        let prefix = match target {
            None => {
                return Ok(Some(value));
            },
            Some(p) => p,
        };
        let ghost m0 = evaluator.vars_map();
        let ghost vals = seq_views(args@);

        evaluator.set_var(prefix, value);
        let ghost base = if prefix@.contains('/') {
            m0.insert(prefix@, join_seqs(vals, Seq::empty()))
        } else {
            m0.insert(length_key(prefix@), dec_rep(join_seqs(vals, Seq::empty()).len())).insert(
                count_key(prefix@),
                "1"@,
            ).insert(prefix@, join_seqs(vals, Seq::empty()))
        };
        proof {
            assert(evaluator.vars_map() == base);
        }

        if args.len() > 1 {
            let mut count_k = string_of(str_chars(prefix).as_slice());
            count_k.append("/count");
            evaluator.variables.insert(
                count_k.as_str(),
                string_of(usize_to_dec(args.len()).as_slice()),
            );
            let ghost base2 = base.insert(count_key(prefix@), dec_rep(vals.len()));
            proof {
                assert(evaluator.vars_map() == base2);
            }
            let n = args.len();
            let mut i: usize = 0;
            while i < n
                invariant
                    evaluator.wf(),
                    n == args@.len(),
                    vals == seq_views(args@),
                    i <= n,
                    evaluator.vars_map() == insert_indexed(base2, prefix@, vals, i as nat),
                    eq_except_vars(*old(evaluator), *evaluator),
                decreases n - i,
            {
                let mut ik = string_of(str_chars(prefix).as_slice());
                ik.append("/");
                ik.append(string_of(usize_to_dec(i).as_slice()).as_str());
                proof {
                    assert(ik@ == index_key(prefix@, i as nat));
                }
                let v = args[i].clone();
                evaluator.variables.insert(ik.as_str(), v);
                i = i + 1;
            }
        }
        Ok(None)
    }
}

pub fn register(eval: &mut Evaluator)
    requires
        old(eval).wf(),
    ensures
        final(eval).wf(),
        final(eval).depth == old(eval).depth,
        final(eval).variables == old(eval).variables,
        final(eval).embedded_functions == old(eval).embedded_functions,
        final(eval).files == old(eval).files,
        final(eval).output_buffer == old(eval).output_buffer,
        final(eval).call_named_args == old(eval).call_named_args,
        final(eval).base_dir == old(eval).base_dir,
        crate::evaluator::reg_view(final(eval).functions@) == crate::evaluator::reg_view(old(eval).functions@).insert(0, ("="@, Builtin::Assign)),
{
    eval.register("=", Builtin::Assign);
}

} // verus!
