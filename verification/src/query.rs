//! A query on a table: an optional view, an optional filter formula and
//! an ordered list of sort clauses, built up call by call.

use crate::base::Base;
use crate::paginator::Paginator;
use crate::record::Record;
use crate::url::{params_view, text_view};
use vstd::prelude::*;
use vstd::string::StringExecFns;

verus! {

/// The direction of one sort clause.
#[derive(Clone, Copy, Debug, PartialEq, Eq, Structural)]
pub enum SortDirection {
    Descending,
    Ascending,
}

impl SortDirection {
    /// The word that stands for the direction in a request.
    pub open spec fn text(self) -> Seq<char> {
        match self {
            SortDirection::Descending => "desc"@,
            SortDirection::Ascending => "asc"@,
        }
    }

    /// The direction as it is written in a request: `desc` or `asc`.
    pub fn to_string(&self) -> (r: String)
        ensures
            r@ == self.text(),
    {
        match self {
            SortDirection::Descending => String::from_str("desc"),
            SortDirection::Ascending => String::from_str("asc"),
        }
    }
}

/// What a query asks for.
pub struct QuerySpec {
    pub view: Option<Seq<char>>,
    pub formula: Option<Seq<char>>,
    pub sort: Seq<(Seq<char>, SortDirection)>,
}

/// The decimal digit `d`.
pub open spec fn digit(d: nat) -> char {
    if d == 0 {
        '0'
    } else if d == 1 {
        '1'
    } else if d == 2 {
        '2'
    } else if d == 3 {
        '3'
    } else if d == 4 {
        '4'
    } else if d == 5 {
        '5'
    } else if d == 6 {
        '6'
    } else if d == 7 {
        '7'
    } else if d == 8 {
        '8'
    } else {
        '9'
    }
}

/// The number `n` in decimal digits, without leading zeros.
pub open spec fn decimal(n: nat) -> Seq<char>
    decreases n,
{
    if n < 10 {
        seq![digit(n)]
    } else {
        decimal(n / 10).push(digit(n % 10))
    }
}

/// The name of the parameter that carries `part` of the sort clause `i`.
pub open spec fn sort_key(i: nat, part: Seq<char>) -> Seq<char> {
    "sort["@ + decimal(i) + "]["@ + part + "]"@
}

/// The parameters of the first `n` sort clauses: for each clause, in the
/// order of the clauses, its field and then its direction.
pub open spec fn sort_pairs(sort: Seq<(Seq<char>, SortDirection)>, n: nat) -> Seq<
    (Seq<char>, Seq<char>),
>
    decreases n,
{
    if n == 0 {
        Seq::empty()
    } else {
        sort_pairs(sort, (n - 1) as nat).push(
            (sort_key((n - 1) as nat, "field"@), sort[n - 1].0),
        ).push((sort_key((n - 1) as nat, "direction"@), sort[n - 1].1.text()))
    }
}

/// The parameter `name`, where a value is set for it.
pub open spec fn optional_pair(name: Seq<char>, value: Option<Seq<char>>) -> Seq<
    (Seq<char>, Seq<char>),
> {
    match value {
        Some(v) => seq![(name, v)],
        None => Seq::empty(),
    }
}

/// The parameters of the request for the page at `offset`: the offset
/// always, the view and the formula where they are set, then the sort
/// clauses.
pub open spec fn request_pairs(offset: Seq<char>, query: QuerySpec) -> Seq<(Seq<char>, Seq<char>)> {
    seq![("offset"@, offset)] + optional_pair("view"@, query.view) + optional_pair(
        "filterByFormula"@,
        query.formula,
    ) + sort_pairs(query.sort, query.sort.len())
}

/// The sort parameters hold two entries for each clause, at the clause's
/// index: its field, then its direction.
pub proof fn lemma_sort_pairs_by_index(sort: Seq<(Seq<char>, SortDirection)>, n: nat)
    ensures
        sort_pairs(sort, n).len() == 2 * n,
        forall|i: int|
            0 <= i < n ==> {
                &&& (#[trigger] sort_pairs(sort, n)[2 * i]) == (
                    sort_key(i as nat, "field"@),
                    sort[i].0,
                )
                &&& sort_pairs(sort, n)[2 * i + 1] == (
                    sort_key(i as nat, "direction"@),
                    sort[i].1.text(),
                )
            },
    decreases n,
{
    if n > 0 {
        lemma_sort_pairs_by_index(sort, (n - 1) as nat);
        let shorter = sort_pairs(sort, (n - 1) as nat);
        assert forall|i: int| 0 <= i < n implies {
            &&& (#[trigger] sort_pairs(sort, n)[2 * i]) == (
                sort_key(i as nat, "field"@),
                sort[i].0,
            )
            &&& sort_pairs(sort, n)[2 * i + 1] == (
                sort_key(i as nat, "direction"@),
                sort[i].1.text(),
            )
        } by {
            if i < n - 1 {
                assert(sort_pairs(sort, n)[2 * i] == shorter[2 * i]);
                assert(sort_pairs(sort, n)[2 * i + 1] == shorter[2 * i + 1]);
            }
        }
    }
}

/// Every request carries the whole query. The offset comes first, then the
/// view and the formula where they are set, then for each sort clause, in
/// the order in which the clauses were added and numbered from 0, its field
/// and its direction. Nothing else is sent.
pub proof fn lemma_request_carries_query(offset: Seq<char>, query: QuerySpec)
    ensures
        ({
            let pairs = request_pairs(offset, query);
            let views: int = if query.view.is_some() {
                1
            } else {
                0
            };
            let formulas: int = if query.formula.is_some() {
                1
            } else {
                0
            };
            let head = 1 + views + formulas;
            &&& pairs.len() == head + 2 * query.sort.len()
            &&& pairs[0] == ("offset"@, offset)
            &&& query.view matches Some(view) ==> pairs[1] == ("view"@, view)
            &&& query.formula matches Some(formula) ==> pairs[head - 1] == (
                "filterByFormula"@,
                formula,
            )
            &&& forall|i: int|
                0 <= i < query.sort.len() ==> {
                    &&& pairs[head + 2 * i] == (
                        sort_key(i as nat, "field"@),
                        (#[trigger] query.sort[i]).0,
                    )
                    &&& pairs[head + 2 * i + 1] == (
                        sort_key(i as nat, "direction"@),
                        query.sort[i].1.text(),
                    )
                }
        }),
{
    let pairs = request_pairs(offset, query);
    let sorted = sort_pairs(query.sort, query.sort.len());
    lemma_sort_pairs_by_index(query.sort, query.sort.len());
    let front = seq![("offset"@, offset)] + optional_pair("view"@, query.view) + optional_pair(
        "filterByFormula"@,
        query.formula,
    );
    assert(pairs == front + sorted);
    assert forall|i: int| 0 <= i < query.sort.len() implies {
        &&& pairs[front.len() + 2 * i] == (
            sort_key(i as nat, "field"@),
            (#[trigger] query.sort[i]).0,
        )
        &&& pairs[front.len() + 2 * i + 1] == (
            sort_key(i as nat, "direction"@),
            query.sort[i].1.text(),
        )
    } by {
        assert(pairs[front.len() + 2 * i] == sorted[2 * i]);
        assert(pairs[front.len() + 2 * i + 1] == sorted[2 * i + 1]);
    }
}

/// The sort clauses as plain text.
pub open spec fn clauses_view(sort: Seq<(String, SortDirection)>) -> Seq<
    (Seq<char>, SortDirection),
> {
    sort.map_values(|c: (String, SortDirection)| (c.0@, c.1))
}

fn digit_str(d: usize) -> (r: &'static str)
    requires
        d < 10,
    ensures
        r@ == seq![digit(d as nat)],
{
    proof {
        reveal_strlit("0");
        reveal_strlit("1");
        reveal_strlit("2");
        reveal_strlit("3");
        reveal_strlit("4");
        reveal_strlit("5");
        reveal_strlit("6");
        reveal_strlit("7");
        reveal_strlit("8");
        reveal_strlit("9");
    }
    let r = if d == 0 {
        "0"
    } else if d == 1 {
        "1"
    } else if d == 2 {
        "2"
    } else if d == 3 {
        "3"
    } else if d == 4 {
        "4"
    } else if d == 5 {
        "5"
    } else if d == 6 {
        "6"
    } else if d == 7 {
        "7"
    } else if d == 8 {
        "8"
    } else {
        "9"
    };
    assert(r@ =~= seq![digit(d as nat)]);
    r
}

/// The number `n` written in decimal digits.
pub fn decimal_string(n: usize) -> (r: String)
    ensures
        r@ == decimal(n as nat),
    decreases n,
{
    if n < 10 {
        String::from_str(digit_str(n))
    } else {
        let mut s = decimal_string(n / 10);
        s.append(digit_str(n % 10));
        assert(s@ =~= decimal((n / 10) as nat).push(digit((n % 10) as nat)));
        s
    }
}

fn sort_key_string(i: usize, part: &str) -> (r: String)
    ensures
        r@ == sort_key(i as nat, part@),
{
    let mut key = String::from_str("sort[");
    key.append(decimal_string(i).as_str());
    key.append("][");
    key.append(part);
    key.append("]");
    key
}

/// A query on one table, built up call by call.
pub struct QueryBuilder<'base, T: Record> {
    base: &'base Base<T>,
    view: Option<String>,
    formula: Option<String>,
    sort: Vec<(String, SortDirection)>,
}

impl<'base, T: Record> QueryBuilder<'base, T> {
    /// The table that the query reads.
    pub closed spec fn origin(&self) -> &'base Base<T> {
        self.base
    }

    /// The table that the query reads.
    pub fn base(&self) -> (base: &'base Base<T>)
        ensures
            base == self.origin(),
    {
        self.base
    }

    /// What the query asks for.
    pub closed spec fn model(&self) -> QuerySpec {
        QuerySpec {
            view: text_view(self.view),
            formula: text_view(self.formula),
            sort: clauses_view(self.sort@),
        }
    }

    pub(crate) fn fresh(base: &'base Base<T>) -> (q: Self)
        ensures
            q.origin() == base,
            q.model().view.is_none(),
            q.model().formula.is_none(),
            q.model().sort.len() == 0,
    {
        QueryBuilder { base, view: None, formula: None, sort: Vec::new() }
    }

    /// The query restricted to the view `view`. A view set earlier is
    /// replaced.
    pub fn view(self, view: &str) -> (q: Self)
        ensures
            q.origin() == self.origin(),
            q.model() == (QuerySpec { view: Some(view@), ..self.model() }),
    {
        let mut q = self;
        q.view = Some(view.to_owned());
        q
    }

    /// The query filtered by the formula `formula`. A formula set earlier is
    /// replaced.
    pub fn formula(self, formula: &str) -> (q: Self)
        ensures
            q.origin() == self.origin(),
            q.model() == (QuerySpec { formula: Some(formula@), ..self.model() }),
    {
        let mut q = self;
        q.formula = Some(formula.to_owned());
        q
    }

    /// The query with one more sort clause, after those it has.
    pub fn sort(self, field: &str, direction: SortDirection) -> (q: Self)
        ensures
            q.origin() == self.origin(),
            q.model() == (QuerySpec {
                sort: self.model().sort.push((field@, direction)),
                ..self.model()
            }),
    {
        let mut q = self;
        q.sort.push((field.to_owned(), direction));
        assert(clauses_view(q.sort@) =~= clauses_view(self.sort@).push((field@, direction)));
        q
    }

    /// The parameters of the request for the page at `offset`.
    pub fn params(&self, offset: &str) -> (pairs: Vec<(String, String)>)
        ensures
            params_view(pairs@) == request_pairs(offset@, self.model()),
    {
        let ghost sort = self.model().sort;
        let mut pairs: Vec<(String, String)> = Vec::new();
        pairs.push((String::from_str("offset"), offset.to_owned()));
        assert(params_view(pairs@) =~= seq![("offset"@, offset@)]);
        match &self.view {
            Some(view) => {
                let ghost before = params_view(pairs@);
                pairs.push((String::from_str("view"), view.clone()));
                assert(params_view(pairs@) =~= before + optional_pair("view"@, self.model().view));
            },
            None => {
                assert(params_view(pairs@) =~= params_view(pairs@) + optional_pair(
                    "view"@,
                    self.model().view,
                ));
            },
        }
        match &self.formula {
            Some(formula) => {
                let ghost before = params_view(pairs@);
                pairs.push((String::from_str("filterByFormula"), formula.clone()));
                assert(params_view(pairs@) =~= before + optional_pair(
                    "filterByFormula"@,
                    self.model().formula,
                ));
            },
            None => {
                assert(params_view(pairs@) =~= params_view(pairs@) + optional_pair(
                    "filterByFormula"@,
                    self.model().formula,
                ));
            },
        }
        let ghost head = params_view(pairs@);
        assert(head =~= head + sort_pairs(sort, 0));
        let mut i: usize = 0;
        while i < self.sort.len()
            invariant
                i <= self.sort.len(),
                sort == self.model().sort,
                sort == clauses_view(self.sort@),
                params_view(pairs@) == head + sort_pairs(sort, i as nat),
            decreases self.sort.len() - i,
        {
            let ghost before = params_view(pairs@);
            let clause = &self.sort[i];
            pairs.push((sort_key_string(i, "field"), clause.0.clone()));
            pairs.push((sort_key_string(i, "direction"), clause.1.to_string()));
            assert(params_view(pairs@) =~= before.push(
                (sort_key(i as nat, "field"@), sort[i as int].0),
            ).push((sort_key(i as nat, "direction"@), sort[i as int].1.text())));
            assert(params_view(pairs@) =~= head + sort_pairs(sort, (i + 1) as nat));
            i = i + 1;
        }
        pairs
    }

    /// The cursor over the rows that the query selects. Nothing has been
    /// fetched yet: the first page is the one at the empty offset.
    pub fn into_iter(self) -> (p: Paginator<'base, T>)
        ensures
            p.origin() == self.origin(),
            p.query() == self.model(),
            p.cursor().pending == Some(Seq::<char>::empty()),
            p.cursor().buffered.len() == 0,
    {
        Paginator::start(self)
    }
}

} // verus!
