//! The offset resolver: from a byte offset inside a definition's layout back
//! to the dotted path of the field that starts there.
use crate::error::{MetalibError, Space};
use crate::model::{first_meta_at, meta_index_at, Metalib, TDRMeta, TDRMetaEntry, INVALID_METALIB_VALUE};
use vstd::set_lib::{lemma_int_range, lemma_len_subset, set_int_range};
use crate::types::MetaPrimativeType;
use vstd::prelude::*;
use vstd::string::*;

verus! {

/// The offset of field `e` in the given layout.
pub open spec fn field_offset(e: TDRMetaEntry, space: Space) -> int {
    match space {
        Space::Net => e.n_off as int,
        Space::Host => e.h_off as int,
    }
}

/// The size of field `e` in the given layout.
pub open spec fn field_size(e: TDRMetaEntry, space: Space) -> int {
    match space {
        Space::Net => e.n_unit_size as int,
        Space::Host => e.h_unit_size as int,
    }
}

/// Field `e`, placed at `base`, covers `target`.
pub open spec fn covers(e: TDRMetaEntry, space: Space, base: int, target: int) -> bool {
    base + field_offset(e, space) <= target < base + field_offset(e, space) + field_size(e, space)
}

/// A field of struct or union type, whose own fields are searched in turn.
pub open spec fn is_aggregate(t: MetaPrimativeType) -> bool {
    t == MetaPrimativeType::STRUCT || t == MetaPrimativeType::UNION
}

pub open spec fn not_found(target: int, space: Space) -> MetalibError {
    MetalibError::ResolutionFailed { target: target as i32, space }
}

/// What one level of the walk finds among the fields `i..` of `meta`
/// placed at `base`.
pub enum Step {
    /// A leaf field starting at the target, with this name.
    Found(Seq<char>),
    /// The walk fails here.
    Failed(MetalibError),
    /// A struct/union field with this name covers the target: the walk goes
    /// on in definition `k` of the table, placed at this field's start.
    Descend(Seq<char>, int, int),
}

/// One level of the walk, in declaration order from field `i`: the first
/// field that covers `target` decides. A struct/union field is searched in
/// turn; a leaf answers if it starts at `target`, and otherwise `target` has
/// no name.
pub open spec fn step(lib: Metalib, meta: TDRMeta, target: int, base: int, space: Space, i: int) -> Step
    decreases meta.entries@.len() - i,
{
    if i < 0 || i >= meta.entries@.len() {
        Step::Failed(not_found(target, space))
    } else {
        let e = meta.entries@[i];
        let start = base + field_offset(e, space);
        if !covers(e, space, base, target) {
            step(lib, meta, target, base, space, i + 1)
        } else if is_aggregate(e.type_) {
            match meta_index_at(lib, e.ptr_meta) {
                None => Step::Failed(MetalibError::DanglingReference { offset: e.ptr_meta }),
                Some(k) => Step::Descend(e.name@, k, start),
            }
        } else if start == target {
            Step::Found(e.name@)
        } else {
            Step::Failed(not_found(target, space))
        }
    }
}

/// The number of bases a nested level can have: a field covering the target
/// starts less than this far below it.
pub open spec fn base_span() -> int {
    0x8000_0000
}

/// A number for the walk's state "definition `k` placed at `base`".
pub open spec fn state_code(k: int, base: int, target: int) -> int {
    k * base_span() + (target - base)
}

/// All numbers of states reachable below the top level.
pub open spec fn state_codes(lib: Metalib) -> Set<int> {
    set_int_range(0, lib.metas@.len() * base_span())
}

/// The walk may be in state (`k`, `base`) having passed the states `visited`.
pub open spec fn descent_state(lib: Metalib, target: int, k: int, base: int, visited: Set<int>) -> bool {
    &&& visited.finite()
    &&& visited.subset_of(state_codes(lib))
    &&& 0 <= k < lib.metas@.len()
    &&& target - base_span() < base <= target
}

/// `r` with `pre` in front of its text.
pub open spec fn then_path(pre: Seq<char>, r: Result<Seq<char>, MetalibError>) -> Result<
    Seq<char>,
    MetalibError,
> {
    match r {
        Ok(p) => Ok(pre + p),
        Err(e) => Err(e),
    }
}

/// The dotted path below definition `k` placed at `base`. A walk that comes
/// back to a state it has passed would go round for ever: it fails there.
pub open spec fn descend(
    lib: Metalib,
    target: int,
    space: Space,
    k: int,
    base: int,
    visited: Set<int>,
) -> Result<Seq<char>, MetalibError>
    decreases lib.metas@.len() * base_span() - visited.len(),
    via descend_decreases
{
    if !descent_state(lib, target, k, base, visited) || visited.contains(
        state_code(k, base, target),
    ) {
        Err(not_found(target, space))
    } else {
        match step(lib, lib.metas@[k], target, base, space, 0) {
            Step::Found(n) => Ok(n),
            Step::Failed(e) => Err(e),
            Step::Descend(n, k2, s2) => then_path(
                n + "."@,
                descend(lib, target, space, k2, s2, visited.insert(state_code(k, base, target))),
            ),
        }
    }
}

/// A state's number lies among `state_codes`, so each new state leaves
/// fewer unvisited ones.
proof fn lemma_visit_state(lib: Metalib, target: int, k: int, base: int, visited: Set<int>)
    requires
        descent_state(lib, target, k, base, visited),
        !visited.contains(state_code(k, base, target)),
    ensures
        visited.insert(state_code(k, base, target)).finite(),
        visited.insert(state_code(k, base, target)).subset_of(state_codes(lib)),
        visited.insert(state_code(k, base, target)).len() == visited.len() + 1,
        visited.len() + 1 <= lib.metas@.len() * base_span(),
{
    let n = lib.metas@.len() as int;
    let c = state_code(k, base, target);
    assert(0 <= c < n * base_span()) by (nonlinear_arith)
        requires
            0 <= k < n,
            0 <= target - base < base_span(),
            c == k * base_span() + (target - base),
            base_span() == 0x8000_0000,
    ;
    lemma_int_range(0, n * base_span());
    lemma_len_subset(visited.insert(c), state_codes(lib));
}

#[via_fn]
proof fn descend_decreases(
    lib: Metalib,
    target: int,
    space: Space,
    k: int,
    base: int,
    visited: Set<int>,
) {
    if descent_state(lib, target, k, base, visited) && !visited.contains(
        state_code(k, base, target),
    ) {
        lemma_visit_state(lib, target, k, base, visited);
    }
}

/// The dotted path of the field starting at `target`, walking `meta` placed
/// at `base`.
pub open spec fn walk_from(lib: Metalib, meta: TDRMeta, target: int, base: int, space: Space) -> Result<
    Seq<char>,
    MetalibError,
> {
    match step(lib, meta, target, base, space, 0) {
        Step::Found(n) => Ok(n),
        Step::Failed(e) => Err(e),
        Step::Descend(n, k, s) => then_path(n + "."@, descend(lib, target, space, k, s, Set::empty())),
    }
}

/// The dotted path of the field of `meta` starting at `target` in the given layout.
pub open spec fn resolve(lib: Metalib, meta: TDRMeta, target: int, space: Space) -> Result<
    Seq<char>,
    MetalibError,
> {
    walk_from(lib, meta, target, 0, space)
}

proof fn lemma_then_path_then(a: Seq<char>, b: Seq<char>, r: Result<Seq<char>, MetalibError>)
    ensures
        then_path(a, then_path(b, r)) == then_path(a + b, r),
{
    if r is Ok {
        assert(a + (b + r->Ok_0) =~= (a + b) + r->Ok_0);
    }
}

proof fn lemma_first_meta_at_bounds(metas: Seq<TDRMeta>, off: u64, i: int)
    requires
        0 <= i,
    ensures
        i <= first_meta_at(metas, off, i) <= metas.len() || (i > metas.len() && first_meta_at(
            metas,
            off,
            i,
        ) == metas.len()),
    decreases metas.len() - i,
{
    if i < metas.len() && metas[i]._offset != off {
        lemma_first_meta_at_bounds(metas, off, i + 1);
    }
}

/// Whether `code` is one of `seen`.
fn seen_contains(seen: &Vec<u128>, code: u128) -> (r: bool)
    ensures
        r == seen@.contains(code),
{
    let mut j: usize = 0;
    while j < seen.len()
        invariant
            j <= seen@.len(),
            forall|m: int| 0 <= m < j ==> seen@[m] != code,
        decreases seen@.len() - j,
    {
        if seen[j] == code {
            return true;
        }
        j = j + 1;
    }
    false
}

/// The index of the definition at body offset `offset`.
fn meta_index_exec(lib: &Metalib, offset: i32) -> (r: Result<usize, MetalibError>)
    ensures
        match meta_index_at(*lib, offset) {
            Some(k) => 0 <= k < lib.metas@.len() && r is Ok && r->Ok_0 as int == k,
            None => r == Err::<usize, MetalibError>(MetalibError::DanglingReference { offset }),
        },
{
    proof {
        lemma_first_meta_at_bounds(lib.metas@, offset as u64, 0);
    }
    if offset == INVALID_METALIB_VALUE {
        return Err(MetalibError::DanglingReference { offset });
    }
    let mut i: usize = 0;
    while i < lib.metas.len()
        invariant
            i <= lib.metas@.len(),
            offset != INVALID_METALIB_VALUE,
            first_meta_at(lib.metas@, offset as u64, 0) == first_meta_at(
                lib.metas@,
                offset as u64,
                i as int,
            ),
        decreases lib.metas@.len() - i,
    {
        if lib.metas[i]._offset == offset as u64 {
            assert(first_meta_at(lib.metas@, offset as u64, i as int) == i);
            return Ok(i);
        }
        i = i + 1;
    }
    Err(MetalibError::DanglingReference { offset })
}

/// One level of the walk: the field index that decides, and for a
/// struct/union field the definition to search next and its base.
fn step_exec(lib: &Metalib, meta: &TDRMeta, target: i32, base: i64, space: Space) -> (r: Result<
    (Option<usize>, i64, usize),
    MetalibError,
>)
    requires
        -0x1_0000_0000 <= base <= 0x1_0000_0000,
    ensures
        match step(*lib, *meta, target as int, base as int, space, 0) {
            Step::Found(n) => r is Ok && r->Ok_0.0 is None && r->Ok_0.2 < meta.entries@.len()
                && meta.entries@[r->Ok_0.2 as int].name@ == n,
            Step::Descend(n, k, s) => r is Ok && r->Ok_0.0 is Some && r->Ok_0.0->0 as int == k && r->Ok_0.1 == s
                && r->Ok_0.2 < meta.entries@.len() && meta.entries@[r->Ok_0.2 as int].name@ == n
                && 0 <= k < lib.metas@.len() && target - base_span() < s <= target,
            Step::Failed(e) => r == Err::<(Option<usize>, i64, usize), MetalibError>(e),
        },
{
    let mut i: usize = 0;
    while i < meta.entries.len()
        invariant
            i <= meta.entries@.len(),
            -0x1_0000_0000 <= base <= 0x1_0000_0000,
            step(*lib, *meta, target as int, base as int, space, 0) == step(
                *lib,
                *meta,
                target as int,
                base as int,
                space,
                i as int,
            ),
        decreases meta.entries@.len() - i,
    {
        let entry = &meta.entries[i];
        let (off, size) = match space {
            Space::Net => (entry.n_off, entry.n_unit_size),
            Space::Host => (entry.h_off, entry.h_unit_size),
        };
        let entry_start: i64 = base + off as i64;
        let entry_end: i64 = entry_start + size as i64;
        if entry_start <= target as i64 && (target as i64) < entry_end {
            if entry.type_ == MetaPrimativeType::STRUCT || entry.type_ == MetaPrimativeType::UNION {
                let k = meta_index_exec(lib, entry.ptr_meta)?;
                return Ok((Some(k), entry_start, i));
            } else if entry_start == target as i64 {
                return Ok((None, entry_start, i));
            } else {
                return Err(MetalibError::ResolutionFailed { target, space });
            }
        }
        i = i + 1;
    }
    Err(MetalibError::ResolutionFailed { target, space })
}

/// Walks the fields of `meta`, placed at `current_base`, for the one that
/// starts at `target` in `space`, descending level by level; the result is
/// `current_path` followed by its dotted path.
pub fn walk_meta_for_offset_field_name(
    metalib: &Metalib,
    meta: &TDRMeta,
    target: i32,
    current_base: i64,
    current_path: String,
    space: Space,
) -> (r: Result<String, MetalibError>)
    requires
        -0x1_0000_0000 <= current_base <= 0x1_0000_0000,
    ensures
        match walk_from(*metalib, *meta, target as int, current_base as int, space) {
            Ok(p) => r is Ok && r->Ok_0@ == current_path@ + p,
            Err(e) => r == Err::<String, MetalibError>(e),
        },
{
    let ghost t = target as int;
    let ghost goal = then_path(
        current_path@,
        walk_from(*metalib, *meta, t, current_base as int, space),
    );
    let ghost cp = current_path@;
    let (first, first_start, first_index) = step_exec(metalib, meta, target, current_base, space)?;
    let mut path = current_path;
    path.append(meta.entries[first_index].name.as_str());
    let mut next = first;
    let mut start = first_start;
    let ghost mut visited = Set::<int>::empty();
    let mut seen: Vec<u128> = Vec::new();
    proof {
        let n = meta.entries@[first_index as int].name@;
        assert(path@ == cp + n);
        if let Some(k) = next {
            assert(walk_from(*metalib, *meta, t, current_base as int, space) == then_path(
                n + "."@,
                descend(*metalib, t, space, k as int, start as int, visited),
            ));
            lemma_then_path_then(cp, n + "."@, descend(*metalib, t, space, k as int, start as int, visited));
            assert(cp + (n + "."@) =~= path@ + "."@);
        } else {
            assert(walk_from(*metalib, *meta, t, current_base as int, space) == Ok::<Seq<char>, MetalibError>(n));
        }
    }
    loop
        invariant
            t == target as int,
            cp == current_path@,
            goal == then_path(cp, walk_from(*metalib, *meta, t, current_base as int, space)),
            next matches Some(k) ==> descent_state(*metalib, t, k as int, start as int, visited),
            next matches Some(k) ==> goal == then_path(
                path@ + "."@,
                descend(*metalib, t, space, k as int, start as int, visited),
            ),
            next is None ==> goal == Ok::<Seq<char>, MetalibError>(path@),
            visited.finite(),
            visited.subset_of(state_codes(*metalib)),
            forall|c: int| visited.contains(c) <==> seen@.map_values(|v: u128| v as int).contains(c),
        decreases metalib.metas@.len() * base_span() - visited.len(),
    {
        let k = match next {
            None => {
                return Ok(path);
            },
            Some(k) => k,
        };
        let code: u128 = (k as u128) * 0x8000_0000 + ((target as i64 - start) as u128);
        let ghost c = state_code(k as int, start as int, t);
        assert(code as int == c);
        if seen_contains(&seen, code) {
            assert(seen@.map_values(|v: u128| v as int).contains(c)) by {
                let m = choose|m: int| 0 <= m < seen@.len() && seen@[m] == code;
                assert(seen@.map_values(|v: u128| v as int)[m] == c);
            }
            return Err(MetalibError::ResolutionFailed { target, space });
        }
        assert(!visited.contains(c)) by {
            if visited.contains(c) {
                let vals = seen@.map_values(|v: u128| v as int);
                let m = choose|m: int| 0 <= m < vals.len() && vals[m] == c;
                assert(seen@[m] == code);
            }
        }
        proof {
            lemma_visit_state(*metalib, t, k as int, start as int, visited);
        }
        let ghost old_seen = seen@;
        seen.push(code);
        proof {
            visited = visited.insert(c);
            let vals = seen@.map_values(|v: u128| v as int);
            let old_vals = old_seen.map_values(|v: u128| v as int);
            assert(vals =~= old_vals.push(c));
            assert forall|c2: int| visited.contains(c2) <==> vals.contains(c2) by {
                if vals.contains(c2) {
                    let m = choose|m: int| 0 <= m < vals.len() && vals[m] == c2;
                    if m < old_vals.len() {
                        assert(old_vals[m] == c2);
                    }
                }
                if old_vals.contains(c2) {
                    let m = choose|m: int| 0 <= m < old_vals.len() && old_vals[m] == c2;
                    assert(vals[m] == c2);
                }
                if c2 == c {
                    assert(vals[vals.len() - 1] == c2);
                }
            }
        }
        let sub = &metalib.metas[k];
        let (n2, s2, i2) = step_exec(metalib, sub, target, start, space)?;
        let ghost p0 = path@;
        let ghost name2 = sub.entries@[i2 as int].name@;
        path.append(".");
        path.append(sub.entries[i2].name.as_str());
        proof {
            assert(path@ =~= p0 + "."@ + name2);
            if let Some(k2) = n2 {
                lemma_then_path_then(p0 + "."@, name2 + "."@, descend(*metalib, t, space, k2 as int, s2 as int, visited));
                assert((p0 + "."@) + (name2 + "."@) =~= path@ + "."@);
            } else {
                assert((p0 + "."@) + name2 =~= path@);
            }
        }
        next = n2;
        start = s2;
    }
}

/// Walks the fields of `meta`, placed at `current_base`, for the one that
/// starts at packed offset `search_net_offset`.
pub fn walk_meta_for_net_offset_field_name(
    metalib: &Metalib,
    meta: &TDRMeta,
    search_net_offset: i32,
    current_base: i32,
    current_path: String,
) -> (r: Result<String, MetalibError>)
    ensures
        match walk_from(*metalib, *meta, search_net_offset as int, current_base as int, Space::Net) {
            Ok(p) => r matches Ok(s) && s@ == current_path@ + p,
            Err(e) => r == Err::<String, MetalibError>(e),
        },
{
    walk_meta_for_offset_field_name(
        metalib,
        meta,
        search_net_offset,
        current_base as i64,
        current_path,
        Space::Net,
    )
}

/// Walks the fields of `meta`, placed at `current_base`, for the one that
/// starts at host offset `search_host_offset`.
pub fn walk_meta_for_host_offset_field_name(
    metalib: &Metalib,
    meta: &TDRMeta,
    search_host_offset: i32,
    current_base: i32,
    current_path: String,
) -> (r: Result<String, MetalibError>)
    ensures
        match walk_from(*metalib, *meta, search_host_offset as int, current_base as int, Space::Host) {
            Ok(p) => r matches Ok(s) && s@ == current_path@ + p,
            Err(e) => r == Err::<String, MetalibError>(e),
        },
{
    walk_meta_for_offset_field_name(
        metalib,
        meta,
        search_host_offset,
        current_base as i64,
        current_path,
        Space::Host,
    )
}

/// The dotted path of the field of `meta` that starts at packed offset
/// `search_net_offset`.
pub fn resolve_meta_entry_name_by_net_offset(
    metalib: &Metalib,
    meta: &TDRMeta,
    search_net_offset: i32,
) -> (r: Result<String, MetalibError>)
    ensures
        match resolve(*metalib, *meta, search_net_offset as int, Space::Net) {
            Ok(p) => r matches Ok(s) && s@ == p,
            Err(e) => r == Err::<String, MetalibError>(e),
        },
{
    walk_meta_for_net_offset_field_name(metalib, meta, search_net_offset, 0, String::new())
}

/// The dotted path of the field of `meta` that starts at host offset
/// `search_host_offset`.
pub fn resolve_meta_entry_name_by_host_offset(
    metalib: &Metalib,
    meta: &TDRMeta,
    search_host_offset: i32,
) -> (r: Result<String, MetalibError>)
    ensures
        match resolve(*metalib, *meta, search_host_offset as int, Space::Host) {
            Ok(p) => r matches Ok(s) && s@ == p,
            Err(e) => r == Err::<String, MetalibError>(e),
        },
{
    walk_meta_for_host_offset_field_name(metalib, meta, search_host_offset, 0, String::new())
}

/// The walk passes over field `e`: it does not cover `target`.
pub open spec fn passes_over(e: TDRMetaEntry, space: Space, base: int, target: int) -> bool {
    !covers(e, space, base, target)
}

/// `chain` picks a field of `meta` at each level, from the outermost down:
/// each is the first field that covers `target`, each but the last is a
/// struct/union field whose definition the next level searches, and the
/// last is a leaf that starts at `target`.
pub open spec fn leaf_chain(
    lib: Metalib,
    meta: TDRMeta,
    target: int,
    base: int,
    space: Space,
    chain: Seq<int>,
) -> bool
    decreases chain.len(),
{
    if chain.len() == 0 {
        false
    } else {
        let i = chain[0];
        let e = meta.entries@[i];
        let start = base + field_offset(e, space);
        &&& 0 <= i < meta.entries@.len()
        &&& forall|j: int| 0 <= j < i ==> passes_over(#[trigger] meta.entries@[j], space, base, target)
        &&& covers(e, space, base, target)
        &&& if chain.len() == 1 {
            !is_aggregate(e.type_) && start == target
        } else {
            &&& is_aggregate(e.type_)
            &&& meta_index_at(lib, e.ptr_meta) is Some
            &&& leaf_chain(
                lib,
                lib.metas@[meta_index_at(lib, e.ptr_meta)->0],
                target,
                start,
                space,
                chain.drop_first(),
            )
        }
    }
}

/// The names of the fields that `chain` picks, joined by dots.
pub open spec fn chain_path(lib: Metalib, meta: TDRMeta, chain: Seq<int>) -> Seq<char>
    decreases chain.len(),
{
    if chain.len() == 0 {
        Seq::empty()
    } else {
        let e = meta.entries@[chain[0]];
        if chain.len() == 1 {
            e.name@
        } else {
            e.name@ + "."@ + chain_path(
                lib,
                lib.metas@[meta_index_at(lib, e.ptr_meta)->0],
                chain.drop_first(),
            )
        }
    }
}

proof fn lemma_step_passes_over(
    lib: Metalib,
    meta: TDRMeta,
    target: int,
    base: int,
    space: Space,
    j: int,
    i: int,
)
    requires
        0 <= j <= i <= meta.entries@.len(),
        forall|m: int| j <= m < i ==> passes_over(#[trigger] meta.entries@[m], space, base, target),
    ensures
        step(lib, meta, target, base, space, j) == step(lib, meta, target, base, space, i),
    decreases i - j,
{
    if j < i {
        lemma_step_passes_over(lib, meta, target, base, space, j + 1, i);
    }
}

/// From a given definition and base there is at most one leaf chain.
proof fn lemma_leaf_chain_unique(
    lib: Metalib,
    meta: TDRMeta,
    target: int,
    base: int,
    space: Space,
    c1: Seq<int>,
    c2: Seq<int>,
)
    requires
        leaf_chain(lib, meta, target, base, space, c1),
        leaf_chain(lib, meta, target, base, space, c2),
    ensures
        c1 == c2,
    decreases c1.len(),
{
    let i1 = c1[0];
    let i2 = c2[0];
    if i1 < i2 {
        assert(passes_over(meta.entries@[i1], space, base, target));
    } else if i2 < i1 {
        assert(passes_over(meta.entries@[i2], space, base, target));
    }
    if c1.len() > 1 && c2.len() > 1 {
        let e = meta.entries@[i1];
        lemma_leaf_chain_unique(
            lib,
            lib.metas@[meta_index_at(lib, e.ptr_meta)->0],
            target,
            base + field_offset(e, space),
            space,
            c1.drop_first(),
            c2.drop_first(),
        );
        assert(c1 =~= seq![i1] + c1.drop_first());
        assert(c2 =~= seq![i2] + c2.drop_first());
    }
    assert(c1 =~= c2);
}

/// The state (table index, base) at level `a` of `chain`, walking from
/// definition `k0` of the table placed at `b0`.
pub open spec fn state_at(
    lib: Metalib,
    k0: int,
    b0: int,
    space: Space,
    chain: Seq<int>,
    a: nat,
) -> (int, int)
    decreases a,
{
    if a == 0 {
        (k0, b0)
    } else {
        let (kp, bp) = state_at(lib, k0, b0, space, chain, (a - 1) as nat);
        let e = lib.metas@[kp].entries@[chain[a - 1]];
        (meta_index_at(lib, e.ptr_meta)->0, bp + field_offset(e, space))
    }
}

/// Each level of a leaf chain rooted in the table is a leaf chain of its
/// own, from a state inside the table and within reach of the target.
proof fn lemma_chain_suffix(
    lib: Metalib,
    k0: int,
    b0: int,
    target: int,
    space: Space,
    chain: Seq<int>,
    a: nat,
)
    requires
        0 <= k0 < lib.metas@.len(),
        target - base_span() < b0 <= target,
        leaf_chain(lib, lib.metas@[k0], target, b0, space, chain),
        a < chain.len(),
    ensures
        0 <= state_at(lib, k0, b0, space, chain, a).0 < lib.metas@.len(),
        target - base_span() < state_at(lib, k0, b0, space, chain, a).1 <= target,
        leaf_chain(
            lib,
            lib.metas@[state_at(lib, k0, b0, space, chain, a).0],
            target,
            state_at(lib, k0, b0, space, chain, a).1,
            space,
            chain.subrange(a as int, chain.len() as int),
        ),
    decreases a,
{
    if a > 0 {
        lemma_chain_suffix(lib, k0, b0, target, space, chain, (a - 1) as nat);
        let (kp, bp) = state_at(lib, k0, b0, space, chain, (a - 1) as nat);
        let sub = chain.subrange(a - 1, chain.len() as int);
        let e = lib.metas@[kp].entries@[chain[a - 1]];
        assert(sub[0] == chain[a - 1]);
        assert(sub.len() > 1);
        assert(sub.drop_first() =~= chain.subrange(a as int, chain.len() as int));
        lemma_first_meta_at_bounds(lib.metas@, e.ptr_meta as u64, 0);
    } else {
        assert(chain.subrange(0, chain.len() as int) =~= chain);
    }
}

proof fn lemma_state_code_injective(k1: int, b1: int, k2: int, b2: int, target: int)
    requires
        0 <= k1,
        0 <= k2,
        target - base_span() < b1 <= target,
        target - base_span() < b2 <= target,
        state_code(k1, b1, target) == state_code(k2, b2, target),
    ensures
        k1 == k2,
        b1 == b2,
{
    let w = base_span();
    let d1 = target - b1;
    let d2 = target - b2;
    assert(k1 == k2) by (nonlinear_arith)
        requires
            w == 0x8000_0000,
            0 <= d1 < w,
            0 <= d2 < w,
            0 <= k1,
            0 <= k2,
            k1 * w + d1 == k2 * w + d2,
    ;
}

/// No state repeats along a leaf chain: a walk that came back to a state
/// would never reach a leaf.
proof fn lemma_chain_states_distinct(
    lib: Metalib,
    k0: int,
    b0: int,
    target: int,
    space: Space,
    chain: Seq<int>,
    a: nat,
    b: nat,
)
    requires
        0 <= k0 < lib.metas@.len(),
        target - base_span() < b0 <= target,
        leaf_chain(lib, lib.metas@[k0], target, b0, space, chain),
        a < b < chain.len(),
    ensures
        state_code(
            state_at(lib, k0, b0, space, chain, a).0,
            state_at(lib, k0, b0, space, chain, a).1,
            target,
        ) != state_code(
            state_at(lib, k0, b0, space, chain, b).0,
            state_at(lib, k0, b0, space, chain, b).1,
            target,
        ),
{
    let (ka, ba) = state_at(lib, k0, b0, space, chain, a);
    let (kb, bb) = state_at(lib, k0, b0, space, chain, b);
    lemma_chain_suffix(lib, k0, b0, target, space, chain, a);
    lemma_chain_suffix(lib, k0, b0, target, space, chain, b);
    if state_code(ka, ba, target) == state_code(kb, bb, target) {
        lemma_state_code_injective(ka, ba, kb, bb, target);
        lemma_leaf_chain_unique(
            lib,
            lib.metas@[ka],
            target,
            ba,
            space,
            chain.subrange(a as int, chain.len() as int),
            chain.subrange(b as int, chain.len() as int),
        );
        assert(chain.subrange(a as int, chain.len() as int).len() != chain.subrange(
            b as int,
            chain.len() as int,
        ).len());
    }
}

/// Descending along a leaf chain from level `a`, having visited exactly the
/// earlier levels' states, yields the rest of the chain's path.
proof fn lemma_descend_chain(
    lib: Metalib,
    k0: int,
    b0: int,
    target: int,
    space: Space,
    chain: Seq<int>,
    a: nat,
    visited: Set<int>,
)
    requires
        0 <= k0 < lib.metas@.len(),
        target - base_span() < b0 <= target,
        leaf_chain(lib, lib.metas@[k0], target, b0, space, chain),
        a < chain.len(),
        visited.finite(),
        visited.subset_of(state_codes(lib)),
        forall|c: int|
            #[trigger] visited.contains(c) ==> exists|m: nat|
                m < a && c == state_code(
                    state_at(lib, k0, b0, space, chain, m).0,
                    state_at(lib, k0, b0, space, chain, m).1,
                    target,
                ),
    ensures
        descend(
            lib,
            target,
            space,
            state_at(lib, k0, b0, space, chain, a).0,
            state_at(lib, k0, b0, space, chain, a).1,
            visited,
        ) == Ok::<Seq<char>, MetalibError>(
            chain_path(
                lib,
                lib.metas@[state_at(lib, k0, b0, space, chain, a).0],
                chain.subrange(a as int, chain.len() as int),
            ),
        ),
    decreases chain.len() - a,
{
    let (ka, ba) = state_at(lib, k0, b0, space, chain, a);
    let c = state_code(ka, ba, target);
    let sub = chain.subrange(a as int, chain.len() as int);
    let meta = lib.metas@[ka];
    lemma_chain_suffix(lib, k0, b0, target, space, chain, a);
    if visited.contains(c) {
        let m = choose|m: nat|
            m < a && c == state_code(
                state_at(lib, k0, b0, space, chain, m).0,
                state_at(lib, k0, b0, space, chain, m).1,
                target,
            );
        lemma_chain_states_distinct(lib, k0, b0, target, space, chain, m, a);
    }
    assert(descent_state(lib, target, ka, ba, visited));
    let i = sub[0];
    lemma_step_passes_over(lib, meta, target, ba, space, 0, i);
    if sub.len() > 1 {
        let e = meta.entries@[i];
        let (k1, b1) = state_at(lib, k0, b0, space, chain, a + 1);
        assert(chain[a as int] == i);
        lemma_first_meta_at_bounds(lib.metas@, e.ptr_meta as u64, 0);
        lemma_visit_state(lib, target, ka, ba, visited);
        let v2 = visited.insert(c);
        assert forall|c2: int| #[trigger] v2.contains(c2) implies exists|m: nat|
            m < a + 1 && c2 == state_code(
                state_at(lib, k0, b0, space, chain, m).0,
                state_at(lib, k0, b0, space, chain, m).1,
                target,
            ) by {
            if c2 == c {
                assert(state_at(lib, k0, b0, space, chain, a) == (ka, ba));
            } else {
                assert(visited.contains(c2));
            }
        }
        lemma_descend_chain(lib, k0, b0, target, space, chain, a + 1, v2);
        assert(sub.drop_first() =~= chain.subrange(a as int + 1, chain.len() as int));
    }
}

/// Resolving an offset at which a leaf field starts yields the names of the
/// fields on the way down to that leaf, outermost first, joined by dots,
/// however deep the chain and whichever definitions it passes.
pub proof fn lemma_leaf_start_resolves(
    lib: Metalib,
    meta: TDRMeta,
    target: int,
    base: int,
    space: Space,
    chain: Seq<int>,
)
    requires
        leaf_chain(lib, meta, target, base, space, chain),
    ensures
        walk_from(lib, meta, target, base, space) == Ok::<Seq<char>, MetalibError>(
            chain_path(lib, meta, chain),
        ),
{
    let i = chain[0];
    lemma_step_passes_over(lib, meta, target, base, space, 0, i);
    if chain.len() > 1 {
        let e = meta.entries@[i];
        let k = meta_index_at(lib, e.ptr_meta)->0;
        let s = base + field_offset(e, space);
        lemma_first_meta_at_bounds(lib.metas@, e.ptr_meta as u64, 0);
        assert(Set::<int>::empty().subset_of(state_codes(lib)));
        lemma_descend_chain(lib, k, s, target, space, chain.drop_first(), 0, Set::empty());
        assert(chain.drop_first().subrange(0, chain.len() - 1) =~= chain.drop_first());
    }
}

/// An offset strictly inside a leaf field, the first field in declaration
/// order that covers it, resolves to nothing: only a field's start has a
/// name, whatever later fields overlap it.
pub proof fn lemma_inside_leaf_not_found(
    lib: Metalib,
    meta: TDRMeta,
    target: int,
    base: int,
    space: Space,
    leaf: int,
)
    requires
        0 <= leaf < meta.entries@.len(),
        !is_aggregate(meta.entries@[leaf].type_),
        base + field_offset(meta.entries@[leaf], space) < target,
        covers(meta.entries@[leaf], space, base, target),
        forall|j: int| 0 <= j < leaf ==> passes_over(#[trigger] meta.entries@[j], space, base, target),
    ensures
        walk_from(lib, meta, target, base, space) == Err::<Seq<char>, MetalibError>(
            not_found(target, space),
        ),
{
    lemma_step_passes_over(lib, meta, target, base, space, 0, leaf);
}

/// Where a level of the walk does not fail, field `i` decides it: the first
/// field from `j` on that covers `target`.
proof fn lemma_step_decides(lib: Metalib, meta: TDRMeta, target: int, base: int, space: Space, j: int) -> (i: int)
    requires
        0 <= j,
        !(step(lib, meta, target, base, space, j) is Failed),
    ensures
        j <= i < meta.entries@.len(),
        forall|m: int| j <= m < i ==> passes_over(#[trigger] meta.entries@[m], space, base, target),
        covers(meta.entries@[i], space, base, target),
        step(lib, meta, target, base, space, j) matches Step::Found(n) ==> !is_aggregate(
            meta.entries@[i].type_,
        ) && base + field_offset(meta.entries@[i], space) == target,
        step(lib, meta, target, base, space, j) matches Step::Descend(n, k, s) ==> is_aggregate(
            meta.entries@[i].type_,
        ) && meta_index_at(lib, meta.entries@[i].ptr_meta) == Some(k) && s == base
            + field_offset(meta.entries@[i], space),
    decreases meta.entries@.len() - j,
{
    if covers(meta.entries@[j], space, base, target) {
        j
    } else {
        lemma_step_decides(lib, meta, target, base, space, j + 1)
    }
}

proof fn lemma_descend_has_chain(
    lib: Metalib,
    target: int,
    space: Space,
    k: int,
    base: int,
    visited: Set<int>,
) -> (chain: Seq<int>)
    requires
        descend(lib, target, space, k, base, visited) is Ok,
    ensures
        leaf_chain(lib, lib.metas@[k], target, base, space, chain),
    decreases lib.metas@.len() * base_span() - visited.len(),
{
    let meta = lib.metas@[k];
    let i = lemma_step_decides(lib, meta, target, base, space, 0);
    match step(lib, meta, target, base, space, 0) {
        Step::Descend(n, k2, s2) => {
            let c = state_code(k, base, target);
            lemma_visit_state(lib, target, k, base, visited);
            let sub = lemma_descend_has_chain(lib, target, space, k2, s2, visited.insert(c));
            let chain = seq![i] + sub;
            assert(chain.drop_first() =~= sub);
            chain
        },
        _ => seq![i],
    }
}

/// Whenever the walk names a path, a leaf chain leads to it.
proof fn lemma_resolved_has_chain(lib: Metalib, meta: TDRMeta, target: int, base: int, space: Space) -> (chain: Seq<int>)
    requires
        walk_from(lib, meta, target, base, space) is Ok,
    ensures
        leaf_chain(lib, meta, target, base, space, chain),
{
    let i = lemma_step_decides(lib, meta, target, base, space, 0);
    match step(lib, meta, target, base, space, 0) {
        Step::Descend(n, k, s) => {
            let sub = lemma_descend_has_chain(lib, target, space, k, s, Set::empty());
            let chain = seq![i] + sub;
            assert(chain.drop_first() =~= sub);
            chain
        },
        _ => seq![i],
    }
}

/// An offset that is not the start of a leaf reached by the first-match
/// descent (for instance one inside a nested struct's range that lands on
/// none of its leaf starts) fails to resolve.
pub proof fn lemma_no_leaf_start_fails(lib: Metalib, meta: TDRMeta, target: int, base: int, space: Space)
    requires
        forall|chain: Seq<int>| !#[trigger] leaf_chain(lib, meta, target, base, space, chain),
    ensures
        walk_from(lib, meta, target, base, space) is Err,
{
    if walk_from(lib, meta, target, base, space) is Ok {
        let chain = lemma_resolved_has_chain(lib, meta, target, base, space);
    }
}

} // verus!
