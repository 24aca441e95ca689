//! The SQL of the user listing and of the single-user lookup.
//!
//! A caller chooses the columns it wants by name. Only the names on a fixed
//! list ever reach the SQL text; everything else that the caller supplies is
//! passed as a bind value, never as text.

use vstd::prelude::*;
use vstd::string::*;
use crate::decimal::{decimal, decimal_u64};
use crate::models::common::{FieldSelection, FieldSelectionView};
use crate::text::{chars_of, join, joined, split_on, stretch_is, trim_bounds, trimmed};

verus! {

/// Why no query could be built.
#[derive(Clone, Copy, Debug, PartialEq, Eq, Structural)]
pub enum QueryError {
    /// The caller named columns, and none of them is on the list.
    NoValidFields,
}

impl QueryError {
    /// The text that tells the caller what went wrong.
    pub fn message(&self) -> (text: &'static str)
        ensures
            text@ == "No valid fields provided."@,
    {
        "No valid fields provided."
    }
}

/// The query of a user listing: the SQL text and the values for its
/// placeholders. The text values come first, in order, then the limit, then
/// the offset.
#[derive(Clone, Debug, PartialEq, Eq)]
pub struct UsersQuery {
    pub sql: String,
    pub text_binds: Vec<String>,
    pub limit: i32,
    pub offset: i32,
}

/// The mathematical content of a `UsersQuery`.
pub struct UsersQueryView {
    pub sql: Seq<char>,
    pub text_binds: Seq<Seq<char>>,
    pub limit: i32,
    pub offset: i32,
}

impl View for UsersQuery {
    type V = UsersQueryView;

    open spec fn view(&self) -> UsersQueryView {
        UsersQueryView {
            sql: self.sql@,
            text_binds: self.text_binds.deep_view(),
            limit: self.limit,
            offset: self.offset,
        }
    }
}

/// The columns that a caller may ask for, in the order in which they are
/// returned when the caller names none.
pub open spec fn allowed_fields() -> Seq<Seq<char>> {
    seq![
        "id"@,
        "name"@,
        "email"@,
        "role"@,
        "professional_info"@,
        "phone_number"@,
        "created_at"@,
        "updated_at"@,
    ]
}

/// `name` is one of the columns that a caller may ask for.
pub open spec fn is_allowed_field(name: Seq<char>) -> bool {
    ||| name == "id"@
    ||| name == "name"@
    ||| name == "email"@
    ||| name == "role"@
    ||| name == "professional_info"@
    ||| name == "phone_number"@
    ||| name == "created_at"@
    ||| name == "updated_at"@
}

/// The allowed columns among `pieces`, each piece taken without the blanks
/// around it, in the order of the pieces. A column named twice is kept
/// twice.
pub open spec fn select_names(pieces: Seq<Seq<char>>) -> Seq<Seq<char>>
    decreases pieces.len(),
{
    if pieces.len() == 0 {
        Seq::empty()
    } else {
        let before = select_names(pieces.drop_last());
        let name = trimmed(pieces.last());
        if is_allowed_field(name) {
            before.push(name)
        } else {
            before
        }
    }
}

/// The columns that a query returns: the allowed ones among the names that
/// the caller gave, separated by commas; every allowed column where the
/// caller gave no names at all.
pub open spec fn selected_fields_of(fields: Option<Seq<char>>) -> Seq<Seq<char>> {
    match fields {
        Some(text) => select_names(split_on(text, ',')),
        None => allowed_fields(),
    }
}

/// The SQL that looks up one user by id, returning the `selected` columns.
pub open spec fn user_sql(selected: Seq<Seq<char>>) -> Seq<char> {
    "SELECT row_to_json(u) as user FROM (SELECT "@ + joined(selected, ", "@)
        + " FROM users WHERE id = $1) u"@
}

/// The placeholder with the number `n`: `$` and the number.
pub open spec fn placeholder(n: nat) -> Seq<char> {
    "$"@ + decimal(n)
}

/// The pattern that matches every text in which `text` occurs.
pub open spec fn containing(text: Seq<char>) -> Seq<char> {
    "%"@ + text + "%"@
}

/// 1 where the filter is given, 0 where it is not.
pub open spec fn given(filter: Option<Seq<char>>) -> nat {
    if filter is Some {
        1
    } else {
        0
    }
}

/// The conditions of a listing, one for each filter that is given, in the
/// order email, name, role, phone number. Each condition takes the next
/// placeholder number, starting at 1.
pub open spec fn filter_clauses(input: FieldSelectionView) -> Seq<Seq<char>> {
    let email: Seq<Seq<char>> = if input.email is Some {
        seq!["email ILIKE "@ + placeholder(1)]
    } else {
        Seq::empty()
    };
    let name: Seq<Seq<char>> = if input.name is Some {
        seq!["name ILIKE "@ + placeholder(1 + given(input.email))]
    } else {
        Seq::empty()
    };
    let role: Seq<Seq<char>> = if input.role is Some {
        seq!["role = "@ + placeholder(1 + given(input.email) + given(input.name))]
    } else {
        Seq::empty()
    };
    let phone: Seq<Seq<char>> = if input.phone_number is Some {
        seq![
            "phone_number ILIKE "@ + placeholder(
                1 + given(input.email) + given(input.name) + given(input.role),
            ),
        ]
    } else {
        Seq::empty()
    };
    email + name + role + phone
}

/// The text values of a listing, one for each filter that is given, in the
/// order of the conditions. Email, name and phone number match as parts; the
/// role matches as a whole.
pub open spec fn filter_binds(input: FieldSelectionView) -> Seq<Seq<char>> {
    let email: Seq<Seq<char>> = match input.email {
        Some(text) => seq![containing(text)],
        None => Seq::empty(),
    };
    let name: Seq<Seq<char>> = match input.name {
        Some(text) => seq![containing(text)],
        None => Seq::empty(),
    };
    let role: Seq<Seq<char>> = match input.role {
        Some(text) => seq![text],
        None => Seq::empty(),
    };
    let phone: Seq<Seq<char>> = match input.phone_number {
        Some(text) => seq![containing(text)],
        None => Seq::empty(),
    };
    email + name + role + phone
}

/// The `WHERE` clause of a listing: the conditions joined by `AND`, or
/// nothing where there is no condition.
pub open spec fn where_clause(input: FieldSelectionView) -> Seq<char> {
    if filter_clauses(input).len() > 0 {
        "WHERE "@ + joined(filter_clauses(input), " AND "@)
    } else {
        Seq::empty()
    }
}

/// The placeholder number of the limit; the offset has the next one. The
/// filters on email, name and role each use up a number. The filter on the
/// phone number does not: where it is given, the limit has its number.
pub open spec fn limit_number(input: FieldSelectionView) -> nat {
    1 + given(input.email) + given(input.name) + given(input.role)
}

/// The column by which a listing is ordered: the one asked for if it is
/// allowed, else `id`.
pub open spec fn sort_field_of(sort_by: Option<Seq<char>>) -> Seq<char> {
    match sort_by {
        Some(name) => if is_allowed_field(name) {
            name
        } else {
            "id"@
        },
        None => "id"@,
    }
}

/// The upper-case form of a text, as `str::to_uppercase` gives it.
pub uninterp spec fn uppercase_text(text: Seq<char>) -> Seq<char>;

/// The direction in which a listing is ordered: the one asked for, in upper
/// case, if that is `ASC` or `DESC`, else `DESC`.
pub open spec fn sort_order_of(order: Option<Seq<char>>) -> Seq<char> {
    match order {
        Some(text) => if uppercase_text(text) == "ASC"@ || uppercase_text(text) == "DESC"@ {
            uppercase_text(text)
        } else {
            "DESC"@
        },
        None => "DESC"@,
    }
}

/// The SQL of a listing.
pub open spec fn users_sql(
    input: FieldSelectionView,
    sort_by: Option<Seq<char>>,
    order: Option<Seq<char>>,
) -> Seq<char> {
    "SELECT row_to_json(u) as user FROM (\n            SELECT "@ + joined(
        selected_fields_of(input.fields),
        ", "@,
    ) + " FROM users "@ + where_clause(input) + " ORDER BY "@ + sort_field_of(sort_by) + " "@
        + sort_order_of(order) + " LIMIT "@ + placeholder(limit_number(input)) + " OFFSET "@
        + placeholder(limit_number(input) + 1) + "\n        ) u"@
}

/// The query of a listing: 10 users from the first on, unless the caller
/// says otherwise.
pub open spec fn users_query_of(
    input: FieldSelectionView,
    sort_by: Option<Seq<char>>,
    order: Option<Seq<char>>,
) -> UsersQueryView {
    UsersQueryView {
        sql: users_sql(input, sort_by, order),
        text_binds: filter_binds(input),
        limit: match input.limit {
            Some(limit) => limit,
            None => 10,
        },
        offset: match input.off_set {
            Some(offset) => offset,
            None => 0,
        },
    }
}

/// The allowed columns are exactly the names on the list.
pub proof fn lemma_allowed_fields(name: Seq<char>)
    ensures
        is_allowed_field(name) <==> allowed_fields().contains(name),
{
    let list = allowed_fields();
    if is_allowed_field(name) {
        if name == "id"@ {
            assert(list[0] == name);
        } else if name == "name"@ {
            assert(list[1] == name);
        } else if name == "email"@ {
            assert(list[2] == name);
        } else if name == "role"@ {
            assert(list[3] == name);
        } else if name == "professional_info"@ {
            assert(list[4] == name);
        } else if name == "phone_number"@ {
            assert(list[5] == name);
        } else if name == "created_at"@ {
            assert(list[6] == name);
        } else {
            assert(list[7] == name);
        }
    }
    if list.contains(name) {
        let i = choose|i: int| 0 <= i < list.len() && list[i] == name;
        assert(is_allowed_field(list[i]));
    }
}

/// Only allowed columns are ever selected, whatever the caller writes: no
/// text of the caller's reaches the column list of the SQL.
pub proof fn lemma_selected_are_allowed(fields: Option<Seq<char>>)
    ensures
        forall|i: int|
            0 <= i < selected_fields_of(fields).len() ==> is_allowed_field(
                #[trigger] selected_fields_of(fields)[i],
            ),
{
    match fields {
        Some(text) => lemma_select_names_allowed(split_on(text, ',')),
        None => {},
    }
}

/// Every name that `select_names` keeps is an allowed column.
pub proof fn lemma_select_names_allowed(pieces: Seq<Seq<char>>)
    ensures
        forall|i: int|
            0 <= i < select_names(pieces).len() ==> is_allowed_field(
                #[trigger] select_names(pieces)[i],
            ),
    decreases pieces.len(),
{
    if pieces.len() > 0 {
        lemma_select_names_allowed(pieces.drop_last());
        let before = select_names(pieces.drop_last());
        let kept = select_names(pieces);
        assert forall|i: int| 0 <= i < kept.len() implies is_allowed_field(#[trigger] kept[i]) by {
            if i < before.len() {
                assert(kept[i] == before[i]);
            }
        }
    }
}

/// A listing has as many text values as it has conditions, and the numbers
/// of the limit and the offset follow those of the conditions on email, name
/// and role.
pub proof fn lemma_filters_and_binds(input: FieldSelectionView)
    ensures
        filter_clauses(input).len() == filter_binds(input).len(),
        filter_clauses(input).len() == given(input.email) + given(input.name) + given(input.role)
            + given(input.phone_number),
        limit_number(input) == 1 + filter_clauses(input).len() - given(input.phone_number),
{
}

/// The upper-case form of a text: calls `str::to_uppercase`, which maps each
/// character by the Unicode upper-case rules and depends on nothing but the
/// text. The contract gives the result a name and claims no more of it.
#[verifier::external_body]
fn to_uppercase(text: &str) -> (upper: String)
    ensures
        upper@ == uppercase_text(text@),
{
    text.to_uppercase()
}

/// Looks the stretch `from..to` of `chars` up among the allowed columns.
fn allowed_name(chars: &Vec<char>, from: usize, to: usize) -> (found: Option<&'static str>)
    requires
        from <= to <= chars.len(),
    ensures
        match found {
            Some(name) => name@ == chars@.subrange(from as int, to as int) && is_allowed_field(
                name@,
            ),
            None => !is_allowed_field(chars@.subrange(from as int, to as int)),
        },
{
    if stretch_is(chars, from, to, "id") {
        Some("id")
    } else if stretch_is(chars, from, to, "name") {
        Some("name")
    } else if stretch_is(chars, from, to, "email") {
        Some("email")
    } else if stretch_is(chars, from, to, "role") {
        Some("role")
    } else if stretch_is(chars, from, to, "professional_info") {
        Some("professional_info")
    } else if stretch_is(chars, from, to, "phone_number") {
        Some("phone_number")
    } else if stretch_is(chars, from, to, "created_at") {
        Some("created_at")
    } else if stretch_is(chars, from, to, "updated_at") {
        Some("updated_at")
    } else {
        None
    }
}

/// Tells whether `name` is one of the allowed columns.
pub fn is_allowed(name: &str) -> (allowed: bool)
    ensures
        allowed == is_allowed_field(name@),
{
    let chars = chars_of(name);
    assert(chars@.subrange(0, chars@.len() as int) =~= name@);
    allowed_name(&chars, 0, chars.len()).is_some()
}

/// Every allowed column, in order.
fn all_fields() -> (names: Vec<String>)
    ensures
        names.deep_view() == allowed_fields(),
{
    let mut names: Vec<String> = Vec::new();
    names.push(String::from_str("id"));
    names.push(String::from_str("name"));
    names.push(String::from_str("email"));
    names.push(String::from_str("role"));
    names.push(String::from_str("professional_info"));
    names.push(String::from_str("phone_number"));
    names.push(String::from_str("created_at"));
    names.push(String::from_str("updated_at"));
    assert(names.deep_view() =~= allowed_fields());
    names
}

/// Picks the columns of a query from the names that the caller gave.
///
/// The names are separated by commas, and blanks around a name do not
/// count. Names that are not allowed are dropped without a word; the order
/// and the repetitions of the others are kept. Without names, every allowed
/// column is picked.
pub fn selected_fields(fields: &Option<String>) -> (names: Vec<String>)
    ensures
        names.deep_view() == selected_fields_of(fields.deep_view()),
{
    match fields {
        None => all_fields(),
        Some(text) => {
            let chars = chars_of(text.as_str());
            let mut names: Vec<String> = Vec::new();
            let mut start: usize = 0;
            let mut i: usize = 0;
            assert(chars@.take(0) =~= Seq::<char>::empty());
            assert(names.deep_view() =~= select_names(split_on(chars@.take(0), ',').drop_last()));
            assert(chars@.subrange(0, 0) =~= split_on(chars@.take(0), ',').last());
            while i < chars.len()
                invariant
                    start <= i <= chars.len(),
                    chars@ == text@,
                    split_on(chars@.take(i as int), ',').len() >= 1,
                    names.deep_view() == select_names(
                        split_on(chars@.take(i as int), ',').drop_last(),
                    ),
                    chars@.subrange(start as int, i as int) == split_on(
                        chars@.take(i as int),
                        ',',
                    ).last(),
                decreases chars.len() - i,
            {
                let ghost before = split_on(chars@.take(i as int), ',');
                let ghost after = split_on(chars@.take(i + 1), ',');
                proof {
                    assert(chars@.take(i + 1).drop_last() =~= chars@.take(i as int));
                    assert(chars@.take(i + 1).last() == chars@[i as int]);
                }
                if chars[i] == ',' {
                    let (from, to) = trim_bounds(&chars, start, i);
                    let ghost kept = names.deep_view();
                    match allowed_name(&chars, from, to) {
                        Some(name) => {
                            names.push(String::from_str(name));
                            assert(names.deep_view() =~= kept.push(name@));
                        },
                        None => {},
                    }
                    proof {
                        assert(after == before.push(Seq::<char>::empty()));
                        assert(after.drop_last() =~= before);
                        assert(before.drop_last().push(before.last()) =~= before);
                        assert(chars@.subrange(i + 1, i + 1) =~= after.last());
                    }
                    start = i + 1;
                } else {
                    proof {
                        assert(after == before.drop_last().push(
                            before.last().push(chars@[i as int]),
                        ));
                        assert(after.drop_last() =~= before.drop_last());
                        assert(chars@.subrange(start as int, i + 1) =~= after.last());
                    }
                }
                i += 1;
            }
            let ghost pieces = split_on(chars@, ',');
            assert(chars@.take(i as int) =~= chars@);
            let (from, to) = trim_bounds(&chars, start, i);
            let ghost kept = names.deep_view();
            match allowed_name(&chars, from, to) {
                Some(name) => {
                    names.push(String::from_str(name));
                    assert(names.deep_view() =~= kept.push(name@));
                },
                None => {},
            }
            names
        },
    }
}

/// Builds the SQL that looks up one user by id and returns the columns that
/// the caller picked. The id is the only placeholder, `$1`.
///
/// Fails where the caller named columns and none of them is allowed.
pub fn user_query(fields: &Option<String>) -> (query: Result<String, QueryError>)
    ensures
        match query {
            Ok(sql) => selected_fields_of(fields.deep_view()).len() > 0 && sql@ == user_sql(
                selected_fields_of(fields.deep_view()),
            ),
            Err(error) => selected_fields_of(fields.deep_view()).len() == 0 && error
                == QueryError::NoValidFields,
        },
{
    let names = selected_fields(fields);
    if names.len() == 0 {
        return Err(QueryError::NoValidFields);
    }
    let mut sql = String::from_str("SELECT row_to_json(u) as user FROM (SELECT ");
    let columns = join(&names, ", ");
    sql.append(columns.as_str());
    sql.append(" FROM users WHERE id = $1) u");
    Ok(sql)
}

/// Writes the placeholder with the number `n`.
fn placeholder_text(n: u64) -> (text: String)
    ensures
        text@ == placeholder(n as nat),
{
    let mut text = String::from_str("$");
    let digits = decimal_u64(n);
    text.append(digits.as_str());
    text
}

/// Writes a condition: what is compared, and the placeholder it is compared
/// with.
fn clause(subject: &str, n: u64) -> (text: String)
    ensures
        text@ == subject@ + placeholder(n as nat),
{
    let mut text = String::from_str(subject);
    let number = placeholder_text(n);
    text.append(number.as_str());
    text
}

/// Writes the pattern that matches every text in which `text` occurs.
fn pattern(text: &str) -> (wrapped: String)
    ensures
        wrapped@ == containing(text@),
{
    let mut wrapped = String::from_str("%");
    wrapped.append(text);
    wrapped.append("%");
    wrapped
}

/// Picks the column to order by.
pub fn sort_field(sort_by: &Option<String>) -> (field: String)
    ensures
        field@ == sort_field_of(sort_by.deep_view()),
{
    match sort_by {
        Some(name) => {
            if is_allowed(name.as_str()) {
                name.clone()
            } else {
                String::from_str("id")
            }
        },
        None => String::from_str("id"),
    }
}

/// Picks the direction to order in.
pub fn sort_order(order: &Option<String>) -> (direction: String)
    ensures
        direction@ == sort_order_of(order.deep_view()),
{
    match order {
        Some(text) => {
            let upper = to_uppercase(text.as_str());
            let ascending = String::from_str("ASC");
            let descending = String::from_str("DESC");
            if upper == ascending || upper == descending {
                upper
            } else {
                descending
            }
        },
        None => String::from_str("DESC"),
    }
}

/// Builds the query of a user listing.
///
/// The columns are those that the caller picked. Each filter that is given
/// adds a condition and a text value; the conditions are joined by `AND`.
/// The rows are ordered by `sort_by` and `order` as far as these are valid,
/// else by `id`, descending. The limit and the offset are the last two
/// placeholders; they default to 10 and 0.
///
/// Fails where the caller named columns and none of them is allowed.
pub fn users_query(input: &FieldSelection, sort_by: &Option<String>, order: &Option<String>) -> (query:
    Result<UsersQuery, QueryError>)
    ensures
        match query {
            Ok(built) => selected_fields_of(input@.fields).len() > 0 && built@ == users_query_of(
                input@,
                sort_by.deep_view(),
                order.deep_view(),
            ),
            Err(error) => selected_fields_of(input@.fields).len() == 0 && error
                == QueryError::NoValidFields,
        },
{
    let names = selected_fields(&input.fields);
    if names.len() == 0 {
        return Err(QueryError::NoValidFields);
    }
    let mut filters: Vec<String> = Vec::new();
    let mut binds: Vec<String> = Vec::new();
    let mut counter: u64 = 1;
    let ghost none: Seq<Seq<char>> = Seq::empty();
    assert(filters.deep_view() =~= none);
    assert(binds.deep_view() =~= none);

    let ghost filters0 = filters.deep_view();
    let ghost binds0 = binds.deep_view();
    if let Some(email) = &input.email {
        filters.push(clause("email ILIKE ", counter));
        binds.push(pattern(email.as_str()));
        counter += 1;
        assert(filters.deep_view() =~= filters0.push("email ILIKE "@ + placeholder(1)));
        assert(binds.deep_view() =~= binds0.push(containing(email@)));
    }
    let ghost filters1 = filters.deep_view();
    let ghost binds1 = binds.deep_view();
    if let Some(name) = &input.name {
        filters.push(clause("name ILIKE ", counter));
        binds.push(pattern(name.as_str()));
        assert(filters.deep_view() =~= filters1.push(
            "name ILIKE "@ + placeholder(counter as nat),
        ));
        assert(binds.deep_view() =~= binds1.push(containing(name@)));
        counter += 1;
    }
    let ghost filters2 = filters.deep_view();
    let ghost binds2 = binds.deep_view();
    if let Some(role) = &input.role {
        filters.push(clause("role = ", counter));
        binds.push(role.clone());
        assert(filters.deep_view() =~= filters2.push("role = "@ + placeholder(counter as nat)));
        assert(binds.deep_view() =~= binds2.push(role@));
        counter += 1;
    }
    let ghost filters3 = filters.deep_view();
    let ghost binds3 = binds.deep_view();
    if let Some(phone) = &input.phone_number {
        filters.push(clause("phone_number ILIKE ", counter));
        binds.push(pattern(phone.as_str()));
        assert(filters.deep_view() =~= filters3.push(
            "phone_number ILIKE "@ + placeholder(counter as nat),
        ));
        assert(binds.deep_view() =~= binds3.push(containing(phone@)));
    }
    assert(counter == limit_number(input@));
    assert(filters.deep_view() =~= filter_clauses(input@));
    assert(binds.deep_view() =~= filter_binds(input@));

    let conditions = if filters.len() > 0 {
        let mut text = String::from_str("WHERE ");
        let all = join(&filters, " AND ");
        text.append(all.as_str());
        text
    } else {
        String::new()
    };
    assert(conditions@ =~= where_clause(input@));

    let field = sort_field(sort_by);
    let direction = sort_order(order);
    let columns = join(&names, ", ");
    let limit_place = placeholder_text(counter);
    let offset_place = placeholder_text(counter + 1);

    let mut sql = String::from_str("SELECT row_to_json(u) as user FROM (\n            SELECT ");
    sql.append(columns.as_str());
    sql.append(" FROM users ");
    sql.append(conditions.as_str());
    sql.append(" ORDER BY ");
    sql.append(field.as_str());
    sql.append(" ");
    sql.append(direction.as_str());
    sql.append(" LIMIT ");
    sql.append(limit_place.as_str());
    sql.append(" OFFSET ");
    sql.append(offset_place.as_str());
    sql.append("\n        ) u");
    assert(sql@ =~= users_sql(input@, sort_by.deep_view(), order.deep_view()));

    let limit = match input.limit {
        Some(limit) => limit,
        None => 10,
    };
    let offset = match input.off_set {
        Some(offset) => offset,
        None => 0,
    };
    Ok(UsersQuery { sql, text_binds: binds, limit, offset })
}

} // verus!
