use vstd::prelude::*;

use crate::filter::{
    all_hold, conditions_of, draft_visible, filters_admit, lemma_conditions_mean_policy,
    params_of, reaches_from, reaches_to, render, where_clause, ConditionView, FiltersView,
    ParamValue,
};
use crate::model::AlbumRow;

verus! {

/// A draft is never listed for a caller other than its uploader, nor for an
/// anonymous caller, even when drafts are asked for; asked for by its uploader,
/// it is listed whenever the other filters admit it.
pub proof fn draft_isolation(f: FiltersView, owner: Seq<char>, other: Seq<char>, row: AlbumRow)
    requires
        row.draft,
        row.uploader_key@ == owner,
        other != owner,
        f.draft,
    ensures
        !all_hold(conditions_of(f, Some(other)), row),
        !all_hold(conditions_of(f, None), row),
        all_hold(conditions_of(f, Some(owner)), row) == filters_admit(f, row),
{
    lemma_conditions_mean_policy(f, Some(other), row);
    lemma_conditions_mean_policy(f, None, row);
    lemma_conditions_mean_policy(f, Some(owner), row);
}

/// A published album is listed for every caller, whether drafts are asked for
/// or not, whenever the other filters admit it.
pub proof fn published_visibility(f: FiltersView, caller: Option<Seq<char>>, row: AlbumRow)
    requires
        !row.draft,
    ensures
        all_hold(conditions_of(f, caller), row) == filters_admit(f, row),
        all_hold(conditions_of(FiltersView { draft: !f.draft, ..f }, caller), row) == filters_admit(
            f,
            row,
        ),
{
    lemma_conditions_mean_policy(f, caller, row);
    lemma_conditions_mean_policy(FiltersView { draft: !f.draft, ..f }, caller, row);
}

/// A lower bound admits exactly the albums whose timeframe ends or starts at
/// or after it; an upper bound those whose timeframe starts or ends at or
/// before it. Neither affects anything else.
pub proof fn time_overlap(f: FiltersView, caller: Option<Seq<char>>, row: AlbumRow)
    ensures
        all_hold(conditions_of(f, caller), row) == ((match f.from {
            Some(b) => reaches_from(row, b),
            None => true,
        }) && (match f.to {
            Some(b) => reaches_to(row, b),
            None => true,
        }) && all_hold(conditions_of(FiltersView { from: None, to: None, ..f }, caller), row)),
{
    lemma_conditions_mean_policy(f, caller, row);
    lemma_conditions_mean_policy(FiltersView { from: None, to: None, ..f }, caller, row);
}

/// An uploader filter admits exactly the albums of the listed uploaders and
/// changes nothing else; without one, the uploader is not restricted.
pub proof fn uploader_filter(f: FiltersView, caller: Option<Seq<char>>, row: AlbumRow)
    ensures
        match f.user {
            Some(us) => all_hold(conditions_of(f, caller), row) == (us.contains(row.uploader_key@)
                && all_hold(conditions_of(FiltersView { user: None, ..f }, caller), row)),
            None => all_hold(conditions_of(f, caller), row) == ((match f.from {
                Some(b) => reaches_from(row, b),
                None => true,
            }) && (match f.to {
                Some(b) => reaches_to(row, b),
                None => true,
            }) && draft_visible(f.draft, caller, row)),
        },
{
    lemma_conditions_mean_policy(f, caller, row);
    lemma_conditions_mean_policy(FiltersView { user: None, ..f }, caller, row);
}

/// Two conditions of one kind that bind the same number of values.
pub open spec fn same_shape(a: ConditionView, b: ConditionView) -> bool {
    match (a, b) {
        (ConditionView::UploaderIn(x), ConditionView::UploaderIn(y)) => x.len() == y.len(),
        (ConditionView::ReachesFrom(_), ConditionView::ReachesFrom(_)) => true,
        (ConditionView::ReachesTo(_), ConditionView::ReachesTo(_)) => true,
        (ConditionView::OwnerOrPublished(_), ConditionView::OwnerOrPublished(_)) => true,
        (ConditionView::PublishedOnly, ConditionView::PublishedOnly) => true,
        _ => false,
    }
}

/// Two requests that differ at most in the values they carry: as many
/// uploaders, the same bounds given, and the same branch of the draft rule.
pub open spec fn same_request_shape(
    f: FiltersView,
    c: Option<Seq<char>>,
    g: FiltersView,
    d: Option<Seq<char>>,
) -> bool {
    &&& f.user is Some == g.user is Some
    &&& (f.user is Some ==> f.user->0.len() == g.user->0.len())
    &&& f.from is Some == g.from is Some
    &&& f.to is Some == g.to is Some
    &&& (f.draft && c is Some) == (g.draft && d is Some)
}

proof fn lemma_render_same_shape(a: Seq<ConditionView>, b: Seq<ConditionView>, base: nat)
    requires
        a.len() == b.len(),
        forall|i: int| 0 <= i < a.len() ==> same_shape(#[trigger] a[i], b[i]),
    ensures
        render(a, base) == render(b, base),
        params_of(a).len() == params_of(b).len(),
    decreases a.len(),
{
    if a.len() > 0 {
        let (x, y) = (a.last(), b.last());
        assert(same_shape(a[a.len() - 1], b[b.len() - 1]));
        lemma_render_same_shape(a.drop_last(), b.drop_last(), base);
        assert(x.params().len() == y.params().len());
        if a.len() == 1 {
            assert(same_shape(a[0], b[0]));
        }
    }
}

/// The text of a compiled predicate is a function of the request's shape
/// alone: the uploader keys, bounds and caller never enter it, whatever
/// characters they hold, and travel only as bound values.
pub proof fn predicate_text_independent_of_values(
    f: FiltersView,
    c: Option<Seq<char>>,
    g: FiltersView,
    d: Option<Seq<char>>,
    base: nat,
)
    requires
        same_request_shape(f, c, g, d),
    ensures
        where_clause(f, c, base) == where_clause(g, d, base),
{
    let a = conditions_of(f, c);
    let b = conditions_of(g, d);
    let nu: int = if f.user is Some { 1 } else { 0 };
    let nl: int = if f.from is Some { 1 } else { 0 };
    let nh: int = if f.to is Some { 1 } else { 0 };
    assert(a.len() == nu + nl + nh + 1);
    assert(b.len() == nu + nl + nh + 1);
    assert forall|i: int| 0 <= i < a.len() implies same_shape(#[trigger] a[i], b[i]) by {
        if f.user is Some && i == 0 {
        } else if f.from is Some && i == nu {
        } else if f.to is Some && i == nu + nl {
        } else {
            assert(i == nu + nl + nh);
        }
    }
    lemma_render_same_shape(a, b, base);
}

/// Each uploader key of a request is bound verbatim, as a text value, in the
/// order given, ahead of every other value.
pub proof fn uploaders_bound_verbatim(f: FiltersView, c: Option<Seq<char>>)
    requires
        f.user is Some,
    ensures
        params_of(conditions_of(f, c)).take(f.user->0.len() as int) == f.user->0.map_values(
            |u: Seq<char>| ParamValue::Text(u),
        ),
{
    let us = f.user->0;
    let cs = conditions_of(f, c);
    lemma_params_prefix(cs, 1);
    assert(cs.take(1) =~= seq![ConditionView::UploaderIn(us)]);
    assert(seq![ConditionView::UploaderIn(us)].drop_last() =~= seq![]);
    assert(params_of(Seq::<ConditionView>::empty()) =~= seq![]);
    assert(params_of(cs.take(1)) =~= ConditionView::UploaderIn(us).params());
    assert(params_of(cs).take(us.len() as int) =~= params_of(cs.take(1)));
}

proof fn lemma_params_prefix(cs: Seq<ConditionView>, k: int)
    requires
        0 <= k <= cs.len(),
    ensures
        params_of(cs.take(k)).len() <= params_of(cs).len(),
        params_of(cs).take(params_of(cs.take(k)).len() as int) == params_of(cs.take(k)),
    decreases cs.len() - k,
{
    if k < cs.len() {
        lemma_params_prefix(cs, k + 1);
        assert(cs.take(k + 1).drop_last() =~= cs.take(k));
        let p = params_of(cs.take(k));
        let q = params_of(cs.take(k + 1));
        assert(q == p + cs.take(k + 1).last().params());
        assert(q.take(p.len() as int) =~= p);
        assert(params_of(cs).take(p.len() as int) =~= params_of(cs).take(q.len() as int).take(
            p.len() as int,
        ));
    } else {
        assert(cs.take(k) =~= cs);
    }
}

} // verus!
