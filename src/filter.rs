use vstd::prelude::*;

use crate::model::{opt_text, texts, AlbumRow};

verus! {

/// A list request: which uploaders, which time window, and whether the
/// caller's own drafts are wanted.
#[derive(Clone, Debug)]
pub struct AlbumFilters {
    pub user: Option<Vec<String>>,
    pub from: Option<u64>,
    pub to: Option<u64>,
    pub draft: bool,
}

/// The mathematical content of a list request.
pub struct FiltersView {
    pub user: Option<Seq<Seq<char>>>,
    pub from: Option<u64>,
    pub to: Option<u64>,
    pub draft: bool,
}

impl View for AlbumFilters {
    type V = FiltersView;

    open spec fn view(&self) -> FiltersView {
        FiltersView {
            user: match self.user {
                Some(us) => Some(texts(us@)),
                None => None,
            },
            from: self.from,
            to: self.to,
            draft: self.draft,
        }
    }
}

/// A value bound to a positional placeholder of the predicate.
#[derive(Clone, Debug, PartialEq, Eq)]
pub enum SqlParam {
    Text(String),
    Integer(u64),
}

/// The mathematical content of a bound value.
pub enum ParamValue {
    Text(Seq<char>),
    Integer(u64),
}

impl View for SqlParam {
    type V = ParamValue;

    open spec fn view(&self) -> ParamValue {
        match self {
            SqlParam::Text(s) => ParamValue::Text(s@),
            SqlParam::Integer(n) => ParamValue::Integer(*n),
        }
    }
}

/// The values of a list of bound parameters.
pub open spec fn param_values(ps: Seq<SqlParam>) -> Seq<ParamValue> {
    ps.map_values(|p: SqlParam| p@)
}

/// One conjunct of the list predicate, before it is rendered as SQL.
#[derive(Clone, Debug)]
pub enum Condition {
    /// The uploader is one of the given keys.
    UploaderIn(Vec<String>),
    /// The timeframe ends, or starts, at or after the bound.
    ReachesFrom(u64),
    /// The timeframe ends, or starts, at or before the bound.
    ReachesTo(u64),
    /// The album belongs to the given caller, or is published.
    OwnerOrPublished(String),
    /// The album is published.
    PublishedOnly,
}

/// The mathematical content of a condition.
pub enum ConditionView {
    UploaderIn(Seq<Seq<char>>),
    ReachesFrom(u64),
    ReachesTo(u64),
    OwnerOrPublished(Seq<char>),
    PublishedOnly,
}

impl View for Condition {
    type V = ConditionView;

    open spec fn view(&self) -> ConditionView {
        match self {
            Condition::UploaderIn(us) => ConditionView::UploaderIn(texts(us@)),
            Condition::ReachesFrom(b) => ConditionView::ReachesFrom(*b),
            Condition::ReachesTo(b) => ConditionView::ReachesTo(*b),
            Condition::OwnerOrPublished(o) => ConditionView::OwnerOrPublished(o@),
            Condition::PublishedOnly => ConditionView::PublishedOnly,
        }
    }
}

/// The views of a list of conditions.
pub open spec fn condition_views(cs: Seq<Condition>) -> Seq<ConditionView> {
    cs.map_values(|c: Condition| c@)
}

// ---------------------------------------------------------------------------
// The visibility policy, stated directly over a row.

/// The row's timeframe ends at or after `b`, or starts at or after `b`.
pub open spec fn reaches_from(row: AlbumRow, b: u64) -> bool {
    (match row.timeframe_to {
        Some(t) => t >= b,
        None => false,
    }) || (match row.timeframe_from {
        Some(f) => f >= b,
        None => false,
    })
}

/// The row's timeframe starts at or before `b`, or ends at or before `b`.
pub open spec fn reaches_to(row: AlbumRow, b: u64) -> bool {
    (match row.timeframe_from {
        Some(f) => f <= b,
        None => false,
    }) || (match row.timeframe_to {
        Some(t) => t <= b,
        None => false,
    })
}

/// Drafts are seen by their uploader alone, and only when asked for; published
/// albums are seen by everyone.
pub open spec fn draft_visible(draft: bool, caller: Option<Seq<char>>, row: AlbumRow) -> bool {
    !row.draft || (draft && caller == Some(row.uploader_key@))
}

/// Whether the request's uploader and time filters admit `row`.
pub open spec fn filters_admit(f: FiltersView, row: AlbumRow) -> bool {
    &&& match f.user {
        Some(us) => us.contains(row.uploader_key@),
        None => true,
    }
    &&& match f.from {
        Some(b) => reaches_from(row, b),
        None => true,
    }
    &&& match f.to {
        Some(b) => reaches_to(row, b),
        None => true,
    }
}

/// Whether a list request by `caller` admits `row`: its filters do, and the
/// draft rule lets the caller see it.
pub open spec fn admitted(f: FiltersView, caller: Option<Seq<char>>, row: AlbumRow) -> bool {
    filters_admit(f, row) && draft_visible(f.draft, caller, row)
}

impl ConditionView {
    /// Whether the row satisfies this condition.
    pub open spec fn holds(self, row: AlbumRow) -> bool {
        match self {
            ConditionView::UploaderIn(us) => us.contains(row.uploader_key@),
            ConditionView::ReachesFrom(b) => reaches_from(row, b),
            ConditionView::ReachesTo(b) => reaches_to(row, b),
            ConditionView::OwnerOrPublished(o) => o == row.uploader_key@ || !row.draft,
            ConditionView::PublishedOnly => !row.draft,
        }
    }

    /// The values this condition binds, in placeholder order.
    pub open spec fn params(self) -> Seq<ParamValue> {
        match self {
            ConditionView::UploaderIn(us) => us.map_values(|u: Seq<char>| ParamValue::Text(u)),
            ConditionView::ReachesFrom(b) => seq![ParamValue::Integer(b)],
            ConditionView::ReachesTo(b) => seq![ParamValue::Integer(b)],
            ConditionView::OwnerOrPublished(o) => seq![ParamValue::Text(o)],
            ConditionView::PublishedOnly => seq![],
        }
    }

    /// The SQL text of this condition when its first value is bound at
    /// placeholder number `first`.
    pub open spec fn text(self, first: nat) -> Seq<char> {
        match self {
            ConditionView::UploaderIn(us) => "uploader_key IN ("@ + placeholder_list(first, us.len())
                + ")"@,
            ConditionView::ReachesFrom(_) => "(timeframe_from >= "@ + placeholder(first)
                + " OR timeframe_to >= "@ + placeholder(first) + ")"@,
            ConditionView::ReachesTo(_) => "(timeframe_to <= "@ + placeholder(first)
                + " OR timeframe_from <= "@ + placeholder(first) + ")"@,
            ConditionView::OwnerOrPublished(_) => "(uploader_key = "@ + placeholder(first)
                + " OR draft = false)"@,
            ConditionView::PublishedOnly => "draft = false"@,
        }
    }
}

/// The typed condition list that a list request compiles to: the uploader
/// filter, then the lower bound, then the upper bound, then the draft rule,
/// which is always present.
pub open spec fn conditions_of(f: FiltersView, caller: Option<Seq<char>>) -> Seq<ConditionView> {
    let users = match f.user {
        Some(us) => seq![ConditionView::UploaderIn(us)],
        None => seq![],
    };
    let lower = match f.from {
        Some(b) => seq![ConditionView::ReachesFrom(b)],
        None => seq![],
    };
    let upper = match f.to {
        Some(b) => seq![ConditionView::ReachesTo(b)],
        None => seq![],
    };
    let draft = if f.draft && caller is Some {
        ConditionView::OwnerOrPublished(caller->0)
    } else {
        ConditionView::PublishedOnly
    };
    users + lower + upper + seq![draft]
}

/// Every condition of the list holds of the row.
pub open spec fn all_hold(cs: Seq<ConditionView>, row: AlbumRow) -> bool {
    forall|i: int| 0 <= i < cs.len() ==> (#[trigger] cs[i]).holds(row)
}

// ---------------------------------------------------------------------------
// Rendering.

/// The decimal digit `d`.
pub open spec fn digit(d: nat) -> char {
    seq!['0', '1', '2', '3', '4', '5', '6', '7', '8', '9'][d as int]
}

/// The decimal numeral of `n`.
pub open spec fn decimal(n: nat) -> Seq<char>
    decreases n,
{
    if n < 10 {
        seq![digit(n)]
    } else {
        decimal(n / 10).push(digit(n % 10))
    }
}

/// The numbered placeholder `?i`.
pub open spec fn placeholder(i: nat) -> Seq<char> {
    seq!['?'] + decimal(i)
}

/// `n` numbered placeholders from `first` on, separated by commas.
pub open spec fn placeholder_list(first: nat, n: nat) -> Seq<char>
    decreases n,
{
    if n == 0 {
        seq![]
    } else if n == 1 {
        placeholder(first)
    } else {
        placeholder_list(first, (n - 1) as nat) + ","@ + placeholder((first + n - 1) as nat)
    }
}

/// The values bound by a list of conditions, in order.
pub open spec fn params_of(cs: Seq<ConditionView>) -> Seq<ParamValue>
    decreases cs.len(),
{
    if cs.len() == 0 {
        seq![]
    } else {
        params_of(cs.drop_last()) + cs.last().params()
    }
}

/// The conditions rendered and joined with ` AND `, numbering placeholders
/// after the `base` values that are already bound.
pub open spec fn render(cs: Seq<ConditionView>, base: nat) -> Seq<char>
    decreases cs.len(),
{
    if cs.len() == 0 {
        seq![]
    } else if cs.len() == 1 {
        cs[0].text(base + 1)
    } else {
        render(cs.drop_last(), base) + " AND "@ + cs.last().text(
            base + params_of(cs.drop_last()).len() + 1,
        )
    }
}

/// Appends the decimal numeral of `n`.
fn push_decimal(s: &mut String, n: usize)
    ensures
        final(s)@ == old(s)@ + decimal(n as nat),
    decreases n,
{
    if n >= 10 {
        push_decimal(s, n / 10);
    }
    let d = n % 10;
    let digits = "0123456789";
    proof {
        reveal_strlit("0123456789");
    }
    let one = digits.substring_char(d, d + 1);
    assert(one@ =~= seq![digit(d as nat)]);
    s.append(one);
    assert(final(s)@ =~= old(s)@ + decimal(n as nat));
}

/// Appends the numbered placeholder `?i`.
fn push_placeholder(s: &mut String, i: usize)
    ensures
        final(s)@ == old(s)@ + placeholder(i as nat),
{
    s.append("?");
    proof {
        reveal_strlit("?");
    }
    push_decimal(s, i);
    assert(final(s)@ =~= old(s)@ + placeholder(i as nat));
}

/// The values of a concatenation are the concatenated values.
proof fn lemma_params_of_concat(s: Seq<ConditionView>, t: Seq<ConditionView>)
    ensures
        params_of(s + t) == params_of(s) + params_of(t),
    decreases t.len(),
{
    if t.len() == 0 {
        assert(s + t =~= s);
        assert(params_of(t) =~= seq![]);
        assert(params_of(s) + params_of(t) =~= params_of(s));
    } else {
        lemma_params_of_concat(s, t.drop_last());
        assert((s + t).drop_last() =~= s + t.drop_last());
        assert((s + t).last() == t.last());
        assert(params_of(s + t) =~= params_of(s) + params_of(t));
    }
}

/// How many values a request's uploader filter binds.
pub open spec fn user_count(f: FiltersView) -> nat {
    match f.user {
        Some(us) => us.len(),
        None => 0,
    }
}

/// A compiled request binds at most its uploaders and three more values.
proof fn lemma_params_len(f: FiltersView, caller: Option<Seq<char>>)
    ensures
        params_of(conditions_of(f, caller)).len() <= user_count(f) + 3,
{
    let users = match f.user {
        Some(us) => seq![ConditionView::UploaderIn(us)],
        None => Seq::<ConditionView>::empty(),
    };
    let lower = match f.from {
        Some(b) => seq![ConditionView::ReachesFrom(b)],
        None => Seq::<ConditionView>::empty(),
    };
    let upper = match f.to {
        Some(b) => seq![ConditionView::ReachesTo(b)],
        None => Seq::<ConditionView>::empty(),
    };
    let draft = if f.draft && caller is Some {
        ConditionView::OwnerOrPublished(caller->0)
    } else {
        ConditionView::PublishedOnly
    };
    assert(conditions_of(f, caller) == users + lower + upper + seq![draft]);
    lemma_params_of_concat(users + lower + upper, seq![draft]);
    lemma_params_of_concat(users + lower, upper);
    lemma_params_of_concat(users, lower);
    lemma_params_of_single(draft);
    if f.user is Some {
        lemma_params_of_single(users[0]);
    } else {
        assert(params_of(users) =~= seq![]);
    }
    if f.from is Some {
        lemma_params_of_single(lower[0]);
    } else {
        assert(params_of(lower) =~= seq![]);
    }
    if f.to is Some {
        lemma_params_of_single(upper[0]);
    } else {
        assert(params_of(upper) =~= seq![]);
    }
}

proof fn lemma_params_of_single(c: ConditionView)
    ensures
        params_of(seq![c]) == c.params(),
{
    assert(seq![c].drop_last() =~= seq![]);
    assert(params_of(seq![c].drop_last()) =~= seq![]);
    assert(params_of(seq![c]) =~= c.params());
}

/// Renders the uploader filter, binding one value per uploader.
fn user_filter_query(parameters: &mut Vec<SqlParam>, users: &Vec<String>) -> (r: String)
    requires
        old(parameters)@.len() + users@.len() < usize::MAX,
    ensures
        param_values(final(parameters)@) == param_values(old(parameters)@)
            + ConditionView::UploaderIn(texts(users@)).params(),
        r@ == ConditionView::UploaderIn(texts(users@)).text(old(parameters)@.len() + 1),
{
    let first = parameters.len() + 1;
    let mut s = String::from_str("uploader_key IN (");
    let ghost us = texts(users@);
    let mut i: usize = 0;
    while i < users.len()
        invariant
            0 <= i <= users@.len(),
            first == old(parameters)@.len() + 1,
            first + users@.len() <= usize::MAX,
            us == texts(users@),
            s@ == "uploader_key IN ("@ + placeholder_list(first as nat, i as nat),
            param_values(parameters@) == param_values(old(parameters)@) + us.take(i as int).map_values(
                |u: Seq<char>| ParamValue::Text(u),
            ),
        decreases users@.len() - i,
    {
        if i > 0 {
            s.append(",");
        }
        push_placeholder(&mut s, first + i);
        proof {
            if i == 0 {
                assert(s@ =~= "uploader_key IN ("@ + placeholder_list(first as nat, 1));
            } else {
                assert(s@ =~= "uploader_key IN ("@ + placeholder_list(first as nat, (i + 1) as nat));
            }
        }
        let ghost before = parameters@;
        parameters.push(SqlParam::Text(users[i].clone()));
        proof {
            assert(param_values(parameters@) =~= param_values(before).push(ParamValue::Text(us[i as int])));
            assert(us.take(i + 1).map_values(|u: Seq<char>| ParamValue::Text(u)) =~= us.take(
                i as int,
            ).map_values(|u: Seq<char>| ParamValue::Text(u)).push(ParamValue::Text(us[i as int])));
        }
        i = i + 1;
    }
    s.append(")");
    assert(us.take(users@.len() as int) =~= us);
    s
}

/// Renders the lower time bound, binding it once.
fn from_filter_query(parameters: &mut Vec<SqlParam>, from: u64) -> (r: String)
    requires
        old(parameters)@.len() + 1 < usize::MAX,
    ensures
        param_values(final(parameters)@) == param_values(old(parameters)@)
            + ConditionView::ReachesFrom(from).params(),
        r@ == ConditionView::ReachesFrom(from).text(old(parameters)@.len() + 1),
{
    parameters.push(SqlParam::Integer(from));
    let p = parameters.len();
    let mut s = String::from_str("(timeframe_from >= ");
    push_placeholder(&mut s, p);
    s.append(" OR timeframe_to >= ");
    push_placeholder(&mut s, p);
    s.append(")");
    assert(param_values(final(parameters)@) =~= param_values(old(parameters)@)
        + ConditionView::ReachesFrom(from).params());
    assert(s@ =~= ConditionView::ReachesFrom(from).text(old(parameters)@.len() + 1));
    s
}

/// Renders the upper time bound, binding it once.
fn to_filter_query(parameters: &mut Vec<SqlParam>, to: u64) -> (r: String)
    requires
        old(parameters)@.len() + 1 < usize::MAX,
    ensures
        param_values(final(parameters)@) == param_values(old(parameters)@)
            + ConditionView::ReachesTo(to).params(),
        r@ == ConditionView::ReachesTo(to).text(old(parameters)@.len() + 1),
{
    parameters.push(SqlParam::Integer(to));
    let p = parameters.len();
    let mut s = String::from_str("(timeframe_to <= ");
    push_placeholder(&mut s, p);
    s.append(" OR timeframe_from <= ");
    push_placeholder(&mut s, p);
    s.append(")");
    assert(param_values(final(parameters)@) =~= param_values(old(parameters)@)
        + ConditionView::ReachesTo(to).params());
    assert(s@ =~= ConditionView::ReachesTo(to).text(old(parameters)@.len() + 1));
    s
}

/// Renders the draft rule: the owner's albums or published ones, binding the
/// owner, or published ones alone.
fn draft_filter_query(parameters: &mut Vec<SqlParam>, owner: Option<&String>) -> (r: String)
    requires
        old(parameters)@.len() + 1 < usize::MAX,
    ensures
        ({
            let c = match owner {
                Some(o) => ConditionView::OwnerOrPublished(o@),
                None => ConditionView::PublishedOnly,
            };
            &&& param_values(final(parameters)@) == param_values(old(parameters)@) + c.params()
            &&& r@ == c.text(old(parameters)@.len() + 1)
        }),
{
    match owner {
        Some(o) => {
            parameters.push(SqlParam::Text(o.clone()));
            let p = parameters.len();
            let mut s = String::from_str("(uploader_key = ");
            push_placeholder(&mut s, p);
            s.append(" OR draft = false)");
            assert(param_values(final(parameters)@) =~= param_values(old(parameters)@)
                + ConditionView::OwnerOrPublished(o@).params());
            assert(s@ =~= ConditionView::OwnerOrPublished(o@).text(old(parameters)@.len() + 1));
            s
        },
        None => {
            assert(param_values(final(parameters)@) =~= param_values(old(parameters)@)
                + ConditionView::PublishedOnly.params());
            String::from_str("draft = false")
        },
    }
}

/// Renders one condition, binding its values after those already bound.
fn render_condition(parameters: &mut Vec<SqlParam>, c: &Condition) -> (r: String)
    requires
        old(parameters)@.len() + c@.params().len() + 1 < usize::MAX,
    ensures
        param_values(final(parameters)@) == param_values(old(parameters)@) + c@.params(),
        r@ == c@.text(old(parameters)@.len() + 1),
{
    match c {
        Condition::UploaderIn(users) => {
            assert(texts(users@).len() == users@.len());
            user_filter_query(parameters, users)
        },
        Condition::ReachesFrom(b) => from_filter_query(parameters, *b),
        Condition::ReachesTo(b) => to_filter_query(parameters, *b),
        Condition::OwnerOrPublished(o) => draft_filter_query(parameters, Some(o)),
        Condition::PublishedOnly => draft_filter_query(parameters, None),
    }
}

impl AlbumFilters {
    /// Compiles the request of `caller` into its typed condition list: the
    /// uploader filter, the lower bound, the upper bound, each where given, and
    /// last the draft rule, which is never left out.
    pub fn conditions(self, caller: Option<String>) -> (r: Vec<Condition>)
        ensures
            condition_views(r@) == conditions_of(self@, opt_text(caller)),
            forall|row: AlbumRow|
                #[trigger] all_hold(conditions_of(self@, opt_text(caller)), row) == admitted(
                    self@,
                    opt_text(caller),
                    row,
                ),
    {
        let ghost f = self@;
        let mut r: Vec<Condition> = Vec::new();
        match self.user {
            Some(us) => r.push(Condition::UploaderIn(us)),
            None => {},
        }
        match self.from {
            Some(b) => r.push(Condition::ReachesFrom(b)),
            None => {},
        }
        match self.to {
            Some(b) => r.push(Condition::ReachesTo(b)),
            None => {},
        }
        let last = match caller {
            Some(o) => {
                if self.draft {
                    Condition::OwnerOrPublished(o)
                } else {
                    Condition::PublishedOnly
                }
            },
            None => Condition::PublishedOnly,
        };
        r.push(last);
        assert(condition_views(r@) =~= conditions_of(f, opt_text(caller)));
        assert forall|row: AlbumRow|
            #[trigger] all_hold(conditions_of(f, opt_text(caller)), row) == admitted(
                f,
                opt_text(caller),
                row,
            ) by {
            lemma_conditions_mean_policy(f, opt_text(caller), row);
        }
        r
    }
}

/// The compiled condition list holds of a row exactly when the visibility
/// policy and the request's filters admit it.
pub proof fn lemma_conditions_mean_policy(f: FiltersView, caller: Option<Seq<char>>, row: AlbumRow)
    ensures
        all_hold(conditions_of(f, caller), row) == admitted(f, caller, row),
{
    let cs = conditions_of(f, caller);
    let nu: int = if f.user is Some { 1 } else { 0 };
    let nl: int = if f.from is Some { 1 } else { 0 };
    let nh: int = if f.to is Some { 1 } else { 0 };
    assert(cs.len() == nu + nl + nh + 1);
    assert(cs[nu + nl + nh].holds(row) == draft_visible(f.draft, caller, row));
    if f.user is Some {
        assert(cs[0] == ConditionView::UploaderIn(f.user->0));
    }
    if f.from is Some {
        assert(cs[nu] == ConditionView::ReachesFrom(f.from->0));
    }
    if f.to is Some {
        assert(cs[nu + nl] == ConditionView::ReachesTo(f.to->0));
    }
    if admitted(f, caller, row) {
        assert forall|i: int| 0 <= i < cs.len() implies (#[trigger] cs[i]).holds(row) by {
            if f.user is Some && i == 0 {
            } else if f.from is Some && i == nu {
            } else if f.to is Some && i == nu + nl {
            } else {
                assert(i == nu + nl + nh);
            }
        }
    }
}

/// The predicate of a list request: ` WHERE ` and the compiled conditions
/// joined with ` AND `.
pub open spec fn where_clause(f: FiltersView, caller: Option<Seq<char>>, base: nat) -> Seq<char> {
    " WHERE "@ + render(conditions_of(f, caller), base)
}

/// Appends to `query` the predicate of the request of `caller`, and to
/// `parameters` the values it binds, numbering placeholders after the values
/// already there.
pub fn apply_filters(
    query: &mut String,
    parameters: &mut Vec<SqlParam>,
    filters: AlbumFilters,
    caller: Option<String>,
)
    requires
        old(parameters)@.len() + user_count(filters@) + 4 < usize::MAX,
    ensures
        final(query)@ == old(query)@ + where_clause(filters@, opt_text(caller), old(parameters)@.len() as nat),
        param_values(final(parameters)@) == param_values(old(parameters)@) + params_of(
            conditions_of(filters@, opt_text(caller)),
        ),
{
    let ghost f = filters@;
    let ghost base = parameters@.len() as nat;
    let conds = filters.conditions(caller);
    let ghost cv = condition_views(conds@);
    proof {
        lemma_params_len(f, opt_text(caller));
        lemma_params_of_concat(cv, seq![]);
        assert(f == filters@);
        assert(cv == conditions_of(f, opt_text(caller)));
        assert(params_of(cv).len() <= user_count(f) + 3);
    }
    query.append(" WHERE ");
    let ghost start = query@;
    let mut i: usize = 0;
    while i < conds.len()
        invariant
            0 <= i <= conds@.len(),
            cv == condition_views(conds@),
            cv == conditions_of(f, opt_text(caller)),
            cv.len() >= 1,
            base + params_of(cv).len() + 1 < usize::MAX,
            parameters@.len() == base + params_of(cv.take(i as int)).len(),
            query@ == start + render(cv.take(i as int), base),
            param_values(parameters@) == param_values(old(parameters)@) + params_of(cv.take(i as int)),
        decreases conds@.len() - i,
    {
        proof {
            assert(cv.take(i + 1).drop_last() =~= cv.take(i as int));
            assert(cv.take(i + 1).last() == cv[i as int]);
            lemma_params_of_concat(cv.take(i + 1), cv.skip(i + 1));
            assert(cv.take(i + 1) + cv.skip(i + 1) =~= cv);
            assert(cv[i as int] == conds@[i as int]@);
        }
        if i > 0 {
            query.append(" AND ");
        }
        let frag = render_condition(parameters, &conds[i]);
        query.append(frag.as_str());
        proof {
            if i == 0 {
                assert(cv.take(1) =~= seq![cv[0]]);
                assert(cv.take(0) =~= seq![]);
                assert(params_of(cv.take(0)) =~= seq![]);
            }
            assert(query@ =~= start + render(cv.take(i + 1), base));
            assert(param_values(parameters@) =~= param_values(old(parameters)@) + params_of(
                cv.take(i + 1),
            ));
            assert(parameters@.len() == param_values(parameters@).len());
            assert(old(parameters)@.len() == param_values(old(parameters)@).len());
        }
        i = i + 1;
    }
    assert(cv.take(conds@.len() as int) =~= cv);
}

/// The columns a list query reads.
pub open spec fn select_albums() -> Seq<char> {
    "SELECT key, title, description, cover_key, locations, uploader_key, draft, timeframe_from, timeframe_to, created_at FROM albums"@
}

/// The order of a list query: latest timeframes first.
pub open spec fn order_albums() -> Seq<char> {
    " ORDER BY timeframe_from DESC, timeframe_to DESC"@
}

/// A complete statement and the values bound to its numbered placeholders,
/// the first value to `?1`.
#[derive(Clone, Debug)]
pub struct CompiledQuery {
    pub sql: String,
    pub params: Vec<SqlParam>,
}

/// Builds the list query of `caller`'s request.
pub fn list_query(filters: AlbumFilters, caller: Option<String>) -> (r: CompiledQuery)
    requires
        user_count(filters@) + 4 < usize::MAX,
    ensures
        r.sql@ == select_albums() + where_clause(filters@, opt_text(caller), 0) + order_albums(),
        param_values(r.params@) == params_of(conditions_of(filters@, opt_text(caller))),
{
    let mut sql = String::from_str(
        "SELECT key, title, description, cover_key, locations, uploader_key, draft, timeframe_from, timeframe_to, created_at FROM albums",
    );
    let mut params: Vec<SqlParam> = Vec::new();
    apply_filters(&mut sql, &mut params, filters, caller);
    sql.append(" ORDER BY timeframe_from DESC, timeframe_to DESC");
    assert(param_values(Seq::<SqlParam>::empty()) =~= seq![]);
    assert(params_of(conditions_of(filters@, opt_text(caller))) =~= seq![] + params_of(conditions_of(filters@, opt_text(caller))));
    CompiledQuery { sql, params }
}

impl AlbumFilters {
    /// Whether this request by `caller` admits `row`.
    pub fn admits(&self, caller: &Option<String>, row: &AlbumRow) -> (r: bool)
        ensures
            r == admitted(self@, opt_text(*caller), *row),
    {
        let by_user = match &self.user {
            Some(us) => {
                let mut found = false;
                let mut i: usize = 0;
                while i < us.len()
                    invariant
                        0 <= i <= us@.len(),
                        found == texts(us@).take(i as int).contains(row.uploader_key@),
                    decreases us@.len() - i,
                {
                    let ghost t = texts(us@);
                    assert(t.take(i + 1) =~= t.take(i as int).push(t[i as int]));
                    let hit = us[i] == row.uploader_key;
                    if hit {
                        found = true;
                    }
                    proof {
                        let x = row.uploader_key@;
                        let next = t.take(i + 1);
                        assert(t[i as int] == us@[i as int]@);
                        if hit {
                            assert(next[i as int] == x);
                        }
                        if t.take(i as int).contains(x) {
                            let j = choose|j: int| 0 <= j < i && t.take(i as int)[j] == x;
                            assert(next[j] == x);
                        }
                        if next.contains(x) {
                            let j = choose|j: int| 0 <= j <= i && next[j] == x;
                            if j < i {
                                assert(t.take(i as int)[j] == x);
                            }
                        }
                    }
                    i = i + 1;
                }
                assert(texts(us@).take(us@.len() as int) =~= texts(us@));
                found
            },
            None => true,
        };
        let by_from = match self.from {
            Some(b) => reaches_bound_from(row, b),
            None => true,
        };
        let by_to = match self.to {
            Some(b) => reaches_bound_to(row, b),
            None => true,
        };
        let by_draft = !row.draft || (self.draft && match caller {
            Some(c) => *c == row.uploader_key,
            None => false,
        });
        by_user && by_from && by_to && by_draft
    }
}

fn reaches_bound_from(row: &AlbumRow, b: u64) -> (r: bool)
    ensures
        r == reaches_from(*row, b),
{
    (match row.timeframe_to {
        Some(t) => t >= b,
        None => false,
    }) || (match row.timeframe_from {
        Some(f) => f >= b,
        None => false,
    })
}

fn reaches_bound_to(row: &AlbumRow, b: u64) -> (r: bool)
    ensures
        r == reaches_to(*row, b),
{
    (match row.timeframe_from {
        Some(f) => f <= b,
        None => false,
    }) || (match row.timeframe_to {
        Some(t) => t <= b,
        None => false,
    })
}

/// The pieces of `s` between commas, in order: one more than there are
/// commas, empty pieces kept.
pub open spec fn split_commas(s: Seq<char>) -> Seq<Seq<char>>
    decreases s.len(),
{
    if s.len() == 0 {
        seq![seq![]]
    } else {
        let prev = split_commas(s.drop_last());
        if s.last() == ',' {
            prev.push(seq![])
        } else {
            prev.update(prev.len() - 1, prev.last().push(s.last()))
        }
    }
}

/// Splits the comma-separated uploader list of a list request.
pub fn split_users(s: &str) -> (r: Vec<String>)
    ensures
        texts(r@) == split_commas(s@),
{
    let n = s.unicode_len();
    let mut pieces: Vec<String> = Vec::new();
    let mut start: usize = 0;
    let mut i: usize = 0;
    assert(s@.subrange(0, 0) =~= Seq::<char>::empty());
    assert(texts(pieces@) =~= Seq::<Seq<char>>::empty());
    assert(split_commas(Seq::<char>::empty()) =~= texts(pieces@).push(Seq::<char>::empty()));
    while i < n
        invariant
            n == s@.len(),
            0 <= start <= i <= n,
            split_commas(s@.subrange(0, i as int)) == texts(pieces@).push(s@.subrange(
                start as int,
                i as int,
            )),
        decreases n - i,
    {
        let c = s.get_char(i);
        let ghost cur = s@.subrange(start as int, i as int);
        let ghost before = texts(pieces@);
        assert(s@.subrange(0, i + 1).drop_last() =~= s@.subrange(0, i as int));
        if c == ',' {
            pieces.push(String::from_str(s.substring_char(start, i)));
            start = i + 1;
            assert(s@.subrange(start as int, i + 1) =~= Seq::<char>::empty());
            assert(s@.subrange(0, i + 1).last() == ',');
            assert(texts(pieces@) =~= before.push(cur));
            assert(split_commas(s@.subrange(0, i + 1)) =~= texts(pieces@).push(
                s@.subrange(start as int, i + 1),
            ));
        } else {
            assert(s@.subrange(start as int, i + 1) =~= cur.push(c));
            assert(s@.subrange(0, i + 1).last() == c);
            assert(split_commas(s@.subrange(0, i + 1)) =~= before.push(cur.push(c)));
        }
        i = i + 1;
    }
    pieces.push(String::from_str(s.substring_char(start, n)));
    assert(s@.subrange(0, n as int) =~= s@);
    assert(texts(pieces@) =~= split_commas(s@));
    pieces
}

} // verus!
