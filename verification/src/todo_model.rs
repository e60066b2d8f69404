//! The concrete record types — the full record, the sparse patch and the
//! nested content cell — with their total conversions into the dynamic
//! value representation and the fallible re-typing back.

use vstd::prelude::*;
use vstd::string::StringExecFns;
use crate::convert::{Creatable, Patchable};
use crate::error::{Error, SpecError};
use crate::value::{
    lemma_values_push, spec_kind, spec_obj_get, spec_of_value, spec_of_values, Kind, Object,
    SpecValue, Value,
};

verus! {

/// Mathematical model of a [`Content`] cell.
pub struct SpecContent {
    pub content_type: Seq<char>,
    pub content_body: Seq<char>,
}

/// Mathematical model of a [`Todo`] record.
pub struct SpecTodo {
    pub id: Option<Seq<char>>,
    pub title: Seq<char>,
    pub body: Seq<Seq<SpecContent>>,
}

/// Mathematical model of a [`TodoPatch`].
pub struct SpecTodoPatch {
    pub title: Option<Seq<char>>,
    pub body: Option<Seq<Seq<SpecContent>>>,
}

/// One cell of a record's body grid: an immutable value replaced
/// wholesale, never merged field by field.
#[derive(Debug, Clone, PartialEq, Eq)]
pub struct Content {
    pub content_type: String,
    pub content_body: String,
}

/// A full record: the identifier is absent until the store assigns one;
/// the body is a two-dimensional grid of content cells, rectangular or
/// jagged.
#[derive(Debug, Clone, PartialEq, Eq)]
pub struct Todo {
    pub id: Option<String>,
    pub title: String,
    pub body: Vec<Vec<Content>>,
}

/// A sparse update: absent fields are left out of the serialized value
/// entirely, so the store's merge leaves them untouched; present fields
/// replace the stored ones wholesale.
#[derive(Debug, Clone, PartialEq, Eq)]
pub struct TodoPatch {
    pub title: Option<String>,
    pub body: Option<Vec<Vec<Content>>>,
}

impl View for Content {
    type V = SpecContent;

    open spec fn view(&self) -> SpecContent {
        SpecContent { content_type: self.content_type@, content_body: self.content_body@ }
    }
}

/// The model of a body grid: the grid of the cells' models.
pub open spec fn grid_view(b: Seq<Vec<Content>>) -> Seq<Seq<SpecContent>> {
    Seq::new(b.len(), |i: int| Seq::new(b[i]@.len(), |j: int| b[i]@[j]@))
}

impl View for Todo {
    type V = SpecTodo;

    open spec fn view(&self) -> SpecTodo {
        SpecTodo {
            id: match self.id {
                Some(s) => Some(s@),
                None => None,
            },
            title: self.title@,
            body: grid_view(self.body@),
        }
    }
}

impl View for TodoPatch {
    type V = SpecTodoPatch;

    open spec fn view(&self) -> SpecTodoPatch {
        SpecTodoPatch {
            title: match self.title {
                Some(s) => Some(s@),
                None => None,
            },
            body: match self.body {
                Some(b) => Some(grid_view(b@)),
                None => None,
            },
        }
    }
}

/// The dynamic value a content cell serializes to: a mapping with
/// exactly its two fields.
pub open spec fn content_value(c: SpecContent) -> SpecValue {
    SpecValue::Object(
        seq![
            ("content_type"@, SpecValue::Strand(c.content_type)),
            ("content_body"@, SpecValue::Strand(c.content_body)),
        ],
    )
}

/// The dynamic value one grid row serializes to.
pub open spec fn row_value(row: Seq<SpecContent>) -> SpecValue {
    SpecValue::Array(Seq::new(row.len(), |j: int| content_value(row[j])))
}

/// The dynamic value a body grid serializes to: an array of arrays.
pub open spec fn grid_value(body: Seq<Seq<SpecContent>>) -> SpecValue {
    SpecValue::Array(Seq::new(body.len(), |i: int| row_value(body[i])))
}

/// The dynamic value a record serializes to. The identifier field is
/// left out entirely when absent — not serialized as null — so the store
/// assigns an identifier on create exactly when none was supplied.
pub open spec fn todo_value(t: SpecTodo) -> SpecValue {
    match t.id {
        Some(id) => SpecValue::Object(
            seq![
                ("id"@, SpecValue::Strand(id)),
                ("title"@, SpecValue::Strand(t.title)),
                ("body"@, grid_value(t.body)),
            ],
        ),
        None => SpecValue::Object(
            seq![("title"@, SpecValue::Strand(t.title)), ("body"@, grid_value(t.body))],
        ),
    }
}

/// The fields a patch serializes to: exactly the present ones, in
/// title-then-body order.
pub open spec fn patch_fields(p: SpecTodoPatch) -> Seq<(Seq<char>, SpecValue)> {
    (match p.title {
        Some(t) => seq![("title"@, SpecValue::Strand(t))],
        None => Seq::<(Seq<char>, SpecValue)>::empty(),
    }) + (match p.body {
        Some(b) => seq![("body"@, grid_value(b))],
        None => Seq::<(Seq<char>, SpecValue)>::empty(),
    })
}

/// The dynamic value a patch serializes to.
pub open spec fn patch_value(p: SpecTodoPatch) -> SpecValue {
    SpecValue::Object(patch_fields(p))
}

impl Content {
    /// Serializes the cell into a field mapping value.
    pub fn to_value(&self) -> (v: Value)
        ensures
            v@ == content_value(self@),
    {
        let mut o = Object::new();
        o.push_field(String::from_str("content_type"), Value::Strand(self.content_type.clone()));
        o.push_field(String::from_str("content_body"), Value::Strand(self.content_body.clone()));
        proof {
            assert(o@ =~= content_value(self@)->Object_0);
        }
        Value::Object(o)
    }
}

/// Serializes a body grid into an array of arrays of cell mappings.
pub fn grid_to_value(body: &Vec<Vec<Content>>) -> (v: Value)
    ensures
        v@ == grid_value(grid_view(body@)),
{
    let ghost gbody = grid_view(body@);
    let mut rows: Vec<Value> = Vec::new();
    let n = body.len();
    for i in 0..n
        invariant
            n == body.len(),
            gbody == grid_view(body@),
            rows@.len() == i,
            spec_of_values(rows@) == Seq::new(i as nat, |k: int| row_value(gbody[k])),
    {
        let mut cells: Vec<Value> = Vec::new();
        let m = body[i].len();
        for j in 0..m
            invariant
                n == body.len(),
                i < n,
                m == body[i as int]@.len(),
                gbody == grid_view(body@),
                cells@.len() == j,
                spec_of_values(cells@) == Seq::new(j as nat, |k: int| content_value(gbody[i as int][k])),
        {
            let cv = body[i][j].to_value();
            proof {
                lemma_values_push(cells@, cv);
            }
            cells.push(cv);
            proof {
                assert(gbody[i as int][j as int] == body@[i as int]@[j as int]@);
                assert(spec_of_values(cells@) =~= Seq::new(
                    (j + 1) as nat,
                    |k: int| content_value(gbody[i as int][k]),
                ));
            }
        }
        let rv = Value::Array(cells);
        proof {
            assert(spec_of_values(cells@) =~= row_value(gbody[i as int])->Array_0);
            lemma_values_push(rows@, rv);
        }
        rows.push(rv);
        proof {
            assert(spec_of_values(rows@) =~= Seq::new(
                (i + 1) as nat,
                |k: int| row_value(gbody[k]),
            ));
        }
    }
    proof {
        assert(spec_of_values(rows@) =~= grid_value(gbody)->Array_0);
    }
    Value::Array(rows)
}

impl Creatable for Todo {
    open spec fn spec_value(&self) -> SpecValue {
        todo_value(self@)
    }

    fn to_value(&self) -> (v: Value) {
        let mut o = Object::new();
        match &self.id {
            Some(id) => {
                o.push_field(String::from_str("id"), Value::Strand(id.clone()));
            },
            None => {},
        }
        o.push_field(String::from_str("title"), Value::Strand(self.title.clone()));
        o.push_field(String::from_str("body"), grid_to_value(&self.body));
        proof {
            assert(o@ =~= todo_value(self@)->Object_0);
        }
        Value::Object(o)
    }
}

impl Patchable for TodoPatch {
    open spec fn spec_value(&self) -> SpecValue {
        patch_value(self@)
    }

    fn to_value(&self) -> (v: Value) {
        let mut o = Object::new();
        match &self.title {
            Some(t) => {
                o.push_field(String::from_str("title"), Value::Strand(t.clone()));
            },
            None => {},
        }
        match &self.body {
            Some(b) => {
                o.push_field(String::from_str("body"), grid_to_value(b));
            },
            None => {},
        }
        proof {
            assert(o@ =~= patch_fields(self@));
        }
        Value::Object(o)
    }
}

/// The identifier a fetched row carries: absent, a plain string, or a
/// typed identifier rendered as `table:key`.
pub open spec fn spec_read_id(fs: Seq<(Seq<char>, SpecValue)>) -> Result<
    Option<Seq<char>>,
    SpecError,
> {
    match spec_obj_get(fs, "id"@) {
        None => Ok(None),
        Some(SpecValue::Strand(s)) => Ok(Some(s)),
        Some(SpecValue::Thing(tb, key)) => Ok(Some(tb + seq![':'] + key)),
        Some(v) => Err(
            SpecError::ConversionError { expected: Kind::Strand, got: Some(spec_kind(v)) },
        ),
    }
}

/// The title a fetched row carries; it must be present and a string.
pub open spec fn spec_read_title(fs: Seq<(Seq<char>, SpecValue)>) -> Result<
    Seq<char>,
    SpecError,
> {
    match spec_obj_get(fs, "title"@) {
        None => Err(SpecError::ConversionError { expected: Kind::Strand, got: None }),
        Some(SpecValue::Strand(s)) => Ok(s),
        Some(v) => Err(
            SpecError::ConversionError { expected: Kind::Strand, got: Some(spec_kind(v)) },
        ),
    }
}

/// Re-typing of one cell: the value must be a mapping whose
/// `content_type` and `content_body` fields are present strings.
pub open spec fn spec_cell_of(v: SpecValue) -> Result<SpecContent, SpecError> {
    match v {
        SpecValue::Object(fs) => match spec_obj_get(fs, "content_type"@) {
            None => Err(SpecError::ConversionError { expected: Kind::Strand, got: None }),
            Some(SpecValue::Strand(ct)) => match spec_obj_get(fs, "content_body"@) {
                None => Err(SpecError::ConversionError { expected: Kind::Strand, got: None }),
                Some(SpecValue::Strand(cb)) => Ok(
                    SpecContent { content_type: ct, content_body: cb },
                ),
                Some(w) => Err(
                    SpecError::ConversionError {
                        expected: Kind::Strand,
                        got: Some(spec_kind(w)),
                    },
                ),
            },
            Some(w) => Err(
                SpecError::ConversionError { expected: Kind::Strand, got: Some(spec_kind(w)) },
            ),
        },
        _ => Err(SpecError::ConversionError { expected: Kind::Object, got: Some(spec_kind(v)) }),
    }
}

/// Re-typing of one grid row, cell by cell; the first mismatch aborts.
pub open spec fn spec_row_of(cells: Seq<SpecValue>) -> Result<Seq<SpecContent>, SpecError>
    decreases cells.len(),
{
    if cells.len() == 0 {
        Ok(Seq::empty())
    } else {
        match spec_cell_of(cells[0]) {
            Err(e) => Err(e),
            Ok(c) => match spec_row_of(cells.drop_first()) {
                Err(e) => Err(e),
                Ok(rest) => Ok(seq![c] + rest),
            },
        }
    }
}

/// Re-typing of a whole grid, row by row; each row must itself be an
/// array, and the first mismatch aborts.
pub open spec fn spec_grid_of(rows: Seq<SpecValue>) -> Result<Seq<Seq<SpecContent>>, SpecError>
    decreases rows.len(),
{
    if rows.len() == 0 {
        Ok(Seq::empty())
    } else {
        match rows[0] {
            SpecValue::Array(cells) => match spec_row_of(cells) {
                Err(e) => Err(e),
                Ok(row) => match spec_grid_of(rows.drop_first()) {
                    Err(e) => Err(e),
                    Ok(rest) => Ok(seq![row] + rest),
                },
            },
            v => Err(
                SpecError::ConversionError { expected: Kind::Array, got: Some(spec_kind(v)) },
            ),
        }
    }
}

/// The body grid a fetched row carries; it must be present and an array
/// of arrays of well-shaped cells.
pub open spec fn spec_read_body(fs: Seq<(Seq<char>, SpecValue)>) -> Result<
    Seq<Seq<SpecContent>>,
    SpecError,
> {
    match spec_obj_get(fs, "body"@) {
        None => Err(SpecError::ConversionError { expected: Kind::Array, got: None }),
        Some(SpecValue::Array(rows)) => spec_grid_of(rows),
        Some(v) => Err(
            SpecError::ConversionError { expected: Kind::Array, got: Some(spec_kind(v)) },
        ),
    }
}

/// Re-typing of a fetched field mapping into a record: identifier first,
/// then title, then body; the first mismatch aborts.
pub open spec fn spec_object_to_todo(fs: Seq<(Seq<char>, SpecValue)>) -> Result<
    SpecTodo,
    SpecError,
> {
    match spec_read_id(fs) {
        Err(e) => Err(e),
        Ok(id) => match spec_read_title(fs) {
            Err(e) => Err(e),
            Ok(title) => match spec_read_body(fs) {
                Err(e) => Err(e),
                Ok(body) => Ok(SpecTodo { id, title, body }),
            },
        },
    }
}

/// A successful prefix of cells fixes what re-typing the whole row
/// yields: the prefix's cells followed by whatever the rest yields.
proof fn lemma_row_of_prefix(cells: Seq<SpecValue>, done: Seq<SpecContent>)
    requires
        done.len() <= cells.len(),
        forall|k: int| 0 <= k < done.len() ==> spec_cell_of(#[trigger] cells[k]) == Ok::<
            SpecContent,
            SpecError,
        >(done[k]),
    ensures
        spec_row_of(cells) == match spec_row_of(cells.skip(done.len() as int)) {
            Ok(rest) => Ok::<Seq<SpecContent>, SpecError>(done + rest),
            Err(e) => Err(e),
        },
    decreases done.len(),
{
    if done.len() == 0 {
        assert(cells.skip(0) =~= cells);
        assert(forall|rest: Seq<SpecContent>| done + rest =~= rest);
    } else {
        assert(cells.len() > 0);
        assert(spec_cell_of(cells[0]) == Ok::<SpecContent, SpecError>(done[0]));
        lemma_row_of_prefix(cells.drop_first(), done.drop_first());
        assert(cells.drop_first().skip(done.len() - 1) =~= cells.skip(done.len() as int));
        assert(forall|rest: Seq<SpecContent>|
            seq![done[0]] + (done.drop_first() + rest) =~= done + rest);
    }
}

/// A successful prefix of rows fixes what re-typing the whole grid
/// yields, in the same way.
proof fn lemma_grid_of_prefix(rows: Seq<SpecValue>, done: Seq<Seq<SpecContent>>)
    requires
        done.len() <= rows.len(),
        forall|k: int|
            0 <= k < done.len() ==> ((#[trigger] rows[k]) matches SpecValue::Array(cells)
                && spec_row_of(cells) == Ok::<Seq<SpecContent>, SpecError>(done[k])),
    ensures
        spec_grid_of(rows) == match spec_grid_of(rows.skip(done.len() as int)) {
            Ok(rest) => Ok::<Seq<Seq<SpecContent>>, SpecError>(done + rest),
            Err(e) => Err(e),
        },
    decreases done.len(),
{
    if done.len() == 0 {
        assert(rows.skip(0) =~= rows);
        assert(forall|rest: Seq<Seq<SpecContent>>| done + rest =~= rest);
    } else {
        assert(rows.len() > 0);
        assert(rows[0] matches SpecValue::Array(cells) && spec_row_of(cells) == Ok::<
            Seq<SpecContent>,
            SpecError,
        >(done[0]));
        lemma_grid_of_prefix(rows.drop_first(), done.drop_first());
        assert(rows.drop_first().skip(done.len() - 1) =~= rows.skip(done.len() as int));
        assert(forall|rest: Seq<Seq<SpecContent>>|
            seq![done[0]] + (done.drop_first() + rest) =~= done + rest);
    }
}

/// Re-types one cell value, reporting the first shape mismatch.
pub fn cell_of_value(v: &Value) -> (r: Result<Content, Error>)
    ensures
        match r {
            Ok(c) => spec_cell_of(v@) == Ok::<SpecContent, SpecError>(c@),
            Err(e) => spec_cell_of(v@) == Err::<SpecContent, SpecError>(e@),
        },
{
    let o = match v {
        Value::Object(o) => o,
        other => {
            return Err(Error::ConversionError { expected: Kind::Object, got: Some(other.kind()) });
        },
    };
    let ct = match o.get(&String::from_str("content_type")) {
        Some(Value::Strand(s)) => s.clone(),
        Some(w) => {
            return Err(Error::ConversionError { expected: Kind::Strand, got: Some(w.kind()) });
        },
        None => {
            return Err(Error::ConversionError { expected: Kind::Strand, got: None });
        },
    };
    let cb = match o.get(&String::from_str("content_body")) {
        Some(Value::Strand(s)) => s.clone(),
        Some(w) => {
            return Err(Error::ConversionError { expected: Kind::Strand, got: Some(w.kind()) });
        },
        None => {
            return Err(Error::ConversionError { expected: Kind::Strand, got: None });
        },
    };
    Ok(Content { content_type: ct, content_body: cb })
}

/// Re-types one row of cell values, reporting the first mismatch.
pub fn row_of_values(cells: &Vec<Value>) -> (r: Result<Vec<Content>, Error>)
    ensures
        match r {
            Ok(row) => spec_row_of(spec_of_values(cells@)) == Ok::<Seq<SpecContent>, SpecError>(
                Seq::new(row@.len(), |j: int| row@[j]@),
            ),
            Err(e) => spec_row_of(spec_of_values(cells@)) == Err::<Seq<SpecContent>, SpecError>(
                e@,
            ),
        },
{
    let ghost scells = spec_of_values(cells@);
    proof {
        crate::value::lemma_values_model(cells@);
    }
    let mut row: Vec<Content> = Vec::new();
    let n = cells.len();
    for i in 0..n
        invariant
            n == cells.len(),
            scells == spec_of_values(cells@),
            scells.len() == n,
            forall|j: int| 0 <= j < n ==> scells[j] == spec_of_value(#[trigger] cells@[j]),
            row@.len() == i,
            forall|k: int| 0 <= k < i ==> spec_cell_of(#[trigger] scells[k]) == Ok::<
                SpecContent,
                SpecError,
            >(row@[k]@),
    {
        match cell_of_value(&cells[i]) {
            Ok(c) => {
                row.push(c);
            },
            Err(e) => {
                proof {
                    lemma_row_of_prefix(scells, Seq::new(row@.len(), |j: int| row@[j]@));
                    assert(scells.skip(i as int).len() > 0);
                    assert(scells.skip(i as int)[0] == scells[i as int]);
                }
                return Err(e);
            },
        }
    }
    proof {
        let done = Seq::new(row@.len(), |j: int| row@[j]@);
        lemma_row_of_prefix(scells, done);
        assert(scells.skip(n as int) =~= Seq::<SpecValue>::empty());
        assert(done + Seq::<SpecContent>::empty() =~= done);
    }
    Ok(row)
}

/// Re-types a grid of row values, reporting the first mismatch.
pub fn grid_of_values(rows: &Vec<Value>) -> (r: Result<Vec<Vec<Content>>, Error>)
    ensures
        match r {
            Ok(g) => spec_grid_of(spec_of_values(rows@)) == Ok::<
                Seq<Seq<SpecContent>>,
                SpecError,
            >(grid_view(g@)),
            Err(e) => spec_grid_of(spec_of_values(rows@)) == Err::<
                Seq<Seq<SpecContent>>,
                SpecError,
            >(e@),
        },
{
    let ghost srows = spec_of_values(rows@);
    proof {
        crate::value::lemma_values_model(rows@);
    }
    let mut g: Vec<Vec<Content>> = Vec::new();
    let n = rows.len();
    for i in 0..n
        invariant
            n == rows.len(),
            srows == spec_of_values(rows@),
            srows.len() == n,
            forall|j: int| 0 <= j < n ==> srows[j] == spec_of_value(#[trigger] rows@[j]),
            g@.len() == i,
            forall|k: int|
                0 <= k < i ==> ((#[trigger] srows[k]) matches SpecValue::Array(cells)
                    && spec_row_of(cells) == Ok::<Seq<SpecContent>, SpecError>(
                        grid_view(g@)[k],
                    )),
    {
        let cells = match &rows[i] {
            Value::Array(cells) => cells,
            other => {
                proof {
                    lemma_grid_of_prefix(srows, grid_view(g@));
                    assert(srows.skip(i as int).len() > 0);
                    assert(srows.skip(i as int)[0] == srows[i as int]);
                }
                return Err(
                    Error::ConversionError { expected: Kind::Array, got: Some(other.kind()) },
                );
            },
        };
        match row_of_values(cells) {
            Ok(row) => {
                let ghost gprev = grid_view(g@);
                g.push(row);
                proof {
                    assert(grid_view(g@) =~= gprev.push(
                        Seq::new(row@.len(), |j: int| row@[j]@),
                    ));
                    assert(forall|k: int|
                        0 <= k < gprev.len() ==> grid_view(g@)[k] == gprev[k]);
                }
            },
            Err(e) => {
                proof {
                    lemma_grid_of_prefix(srows, grid_view(g@));
                    assert(srows.skip(i as int).len() > 0);
                    assert(srows.skip(i as int)[0] == srows[i as int]);
                }
                return Err(e);
            },
        }
    }
    proof {
        let done = grid_view(g@);
        lemma_grid_of_prefix(srows, done);
        assert(srows.skip(n as int) =~= Seq::<SpecValue>::empty());
        assert(done + Seq::<Seq<SpecContent>>::empty() =~= done);
    }
    Ok(g)
}

/// Re-types a fetched field mapping into a full record, reporting the
/// first shape mismatch instead of panicking.
pub fn object_to_todo(o: &Object) -> (r: Result<Todo, Error>)
    ensures
        match r {
            Ok(t) => spec_object_to_todo(o@) == Ok::<SpecTodo, SpecError>(t@),
            Err(e) => spec_object_to_todo(o@) == Err::<SpecTodo, SpecError>(e@),
        },
{
    let id = match o.get(&String::from_str("id")) {
        None => None,
        Some(Value::Strand(s)) => Some(s.clone()),
        Some(Value::Thing(tb, key)) => {
            let rendered = tb.clone().concat(":").concat(key.as_str());
            proof {
                reveal_strlit(":");
                assert(":"@ =~= seq![':']);
            }
            Some(rendered)
        },
        Some(v) => {
            return Err(Error::ConversionError { expected: Kind::Strand, got: Some(v.kind()) });
        },
    };
    let title = match o.get(&String::from_str("title")) {
        Some(Value::Strand(s)) => s.clone(),
        Some(v) => {
            return Err(Error::ConversionError { expected: Kind::Strand, got: Some(v.kind()) });
        },
        None => {
            return Err(Error::ConversionError { expected: Kind::Strand, got: None });
        },
    };
    let body = match o.get(&String::from_str("body")) {
        Some(Value::Array(rows)) => grid_of_values(rows)?,
        Some(v) => {
            return Err(Error::ConversionError { expected: Kind::Array, got: Some(v.kind()) });
        },
        None => {
            return Err(Error::ConversionError { expected: Kind::Array, got: None });
        },
    };
    let t = Todo { id, title, body };
    proof {
        assert(t@.body =~~= spec_read_body(o@)->Ok_0);
    }
    Ok(t)
}

/// Re-typing a serialized cell restores the cell.
pub proof fn lemma_cell_round_trip(c: SpecContent)
    ensures
        spec_cell_of(content_value(c)) == Ok::<SpecContent, SpecError>(c),
{
    reveal_strlit("content_type");
    reveal_strlit("content_body");
    assert("content_type"@[8] == 't');
    assert("content_body"@[8] == 'b');
    assert("content_type"@ != "content_body"@);
    let fs = content_value(c)->Object_0;
    let fs1 = fs.drop_first();
    assert(fs1 =~= seq![("content_body"@, SpecValue::Strand(c.content_body))]);
    assert(spec_obj_get(fs, "content_type"@) == Some(SpecValue::Strand(c.content_type)));
    assert(spec_obj_get(fs, "content_body"@) == spec_obj_get(fs1, "content_body"@));
    assert(spec_obj_get(fs1, "content_body"@) == Some(SpecValue::Strand(c.content_body)));
}

/// Re-typing a serialized grid row restores the row.
pub proof fn lemma_row_value_round_trip(row: Seq<SpecContent>)
    ensures
        spec_row_of(row_value(row)->Array_0) == Ok::<Seq<SpecContent>, SpecError>(row),
    decreases row.len(),
{
    let cells = row_value(row)->Array_0;
    if row.len() == 0 {
        assert(cells.len() == 0);
        assert(Seq::<SpecContent>::empty() =~= row);
    } else {
        lemma_cell_round_trip(row[0]);
        lemma_row_value_round_trip(row.drop_first());
        assert(cells.drop_first() =~= row_value(row.drop_first())->Array_0);
        assert(seq![row[0]] + row.drop_first() =~= row);
    }
}

/// Re-typing a serialized body grid restores the grid.
pub proof fn lemma_grid_value_round_trip(body: Seq<Seq<SpecContent>>)
    ensures
        spec_grid_of(grid_value(body)->Array_0) == Ok::<Seq<Seq<SpecContent>>, SpecError>(body),
    decreases body.len(),
{
    let rows = grid_value(body)->Array_0;
    if body.len() == 0 {
        assert(rows.len() == 0);
        assert(Seq::<Seq<SpecContent>>::empty() =~= body);
    } else {
        lemma_row_value_round_trip(body[0]);
        lemma_grid_value_round_trip(body.drop_first());
        assert(rows.drop_first() =~= grid_value(body.drop_first())->Array_0);
        assert(seq![body[0]] + body.drop_first() =~= body);
    }
}

/// Round trip: serializing any record into a dynamic value and re-typing
/// the resulting field mapping restores the record exactly — the title
/// and the body grid always, and the identifier whenever the record had
/// one; a record without an identifier comes back without one.
pub proof fn lemma_todo_round_trip(t: SpecTodo)
    ensures
        todo_value(t) is Object,
        spec_object_to_todo(todo_value(t)->Object_0) == Ok::<SpecTodo, SpecError>(t),
{
    reveal_strlit("id");
    reveal_strlit("title");
    reveal_strlit("body");
    let fs = todo_value(t)->Object_0;
    assert("id"@.len() == 2 && "title"@.len() == 5 && "body"@.len() == 4);
    lemma_grid_value_round_trip(t.body);
    let e_title = ("title"@, SpecValue::Strand(t.title));
    let e_body = ("body"@, grid_value(t.body));
    match t.id {
        Some(id) => {
            let e_id = ("id"@, SpecValue::Strand(id));
            let fs1 = fs.drop_first();
            let fs2 = fs1.drop_first();
            assert(fs1 =~= seq![e_title, e_body]);
            assert(fs2 =~= seq![e_body]);
            assert(spec_obj_get(fs, "id"@) == Some(SpecValue::Strand(id)));
            assert(spec_obj_get(fs, "title"@) == spec_obj_get(fs1, "title"@));
            assert(spec_obj_get(fs1, "title"@) == Some(SpecValue::Strand(t.title)));
            assert(spec_obj_get(fs, "body"@) == spec_obj_get(fs1, "body"@));
            assert(spec_obj_get(fs1, "body"@) == spec_obj_get(fs2, "body"@));
            assert(spec_obj_get(fs2, "body"@) == Some(grid_value(t.body)));
            assert(spec_read_id(fs) == Ok::<Option<Seq<char>>, SpecError>(Some(id)));
            assert(spec_read_title(fs) == Ok::<Seq<char>, SpecError>(t.title));
            assert(spec_read_body(fs) == Ok::<Seq<Seq<SpecContent>>, SpecError>(t.body));
        },
        None => {
            let fs1 = fs.drop_first();
            let fs2 = fs1.drop_first();
            assert(fs1 =~= seq![e_body]);
            assert(fs2 =~= Seq::<(Seq<char>, SpecValue)>::empty());
            assert(spec_obj_get(fs, "id"@) == spec_obj_get(fs1, "id"@));
            assert(spec_obj_get(fs1, "id"@) == spec_obj_get(fs2, "id"@));
            assert(spec_obj_get(fs2, "id"@) is None);
            assert(spec_obj_get(fs, "title"@) == Some(SpecValue::Strand(t.title)));
            assert(spec_obj_get(fs, "body"@) == spec_obj_get(fs1, "body"@));
            assert(spec_obj_get(fs1, "body"@) == Some(grid_value(t.body)));
            assert(spec_read_id(fs) == Ok::<Option<Seq<char>>, SpecError>(None));
            assert(spec_read_title(fs) == Ok::<Seq<char>, SpecError>(t.title));
            assert(spec_read_body(fs) == Ok::<Seq<Seq<SpecContent>>, SpecError>(t.body));
        },
    }
}

/// Omission: a patch with no title and a present body serializes to a
/// mapping holding exactly the body entry — the title is absent
/// altogether, not present as null.
pub proof fn lemma_patch_omits_absent_title(b: Seq<Seq<SpecContent>>)
    ensures
        ({
            let fs = patch_fields(SpecTodoPatch { title: None, body: Some(b) });
            &&& fs == seq![("body"@, grid_value(b))]
            &&& spec_obj_get(fs, "title"@) is None
            &&& spec_obj_get(fs, "body"@) == Some(grid_value(b))
        }),
{
    reveal_strlit("title");
    reveal_strlit("body");
    let fs = patch_fields(SpecTodoPatch { title: None, body: Some(b) });
    assert(fs =~= seq![("body"@, grid_value(b))]);
    assert("body"@.len() != "title"@.len());
    let fs1 = fs.drop_first();
    assert(fs1 =~= Seq::<(Seq<char>, SpecValue)>::empty());
    assert(spec_obj_get(fs, "title"@) == spec_obj_get(fs1, "title"@));
    assert(spec_obj_get(fs1, "title"@) is None);
    assert(spec_obj_get(fs, "body"@) == Some(grid_value(b)));
}

/// A patch's serialized mapping binds an entry for exactly the fields
/// the patch carries: the title entry exists iff the title is present,
/// the body entry iff the body is, each bound to its serialized value.
pub proof fn lemma_patch_fields_exact(p: SpecTodoPatch)
    ensures
        spec_obj_get(patch_fields(p), "title"@) == match p.title {
            Some(t) => Some(SpecValue::Strand(t)),
            None => None,
        },
        spec_obj_get(patch_fields(p), "body"@) == match p.body {
            Some(b) => Some(grid_value(b)),
            None => None,
        },
{
    reveal_strlit("title");
    reveal_strlit("body");
    assert("title"@.len() == 5 && "body"@.len() == 4);
    let fs = patch_fields(p);
    match (p.title, p.body) {
        (Some(t), Some(b)) => {
            assert(fs =~= seq![("title"@, SpecValue::Strand(t)), ("body"@, grid_value(b))]);
            let fs1 = fs.drop_first();
            assert(fs1 =~= seq![("body"@, grid_value(b))]);
            assert(spec_obj_get(fs, "title"@) == Some(SpecValue::Strand(t)));
            assert(spec_obj_get(fs, "body"@) == spec_obj_get(fs1, "body"@));
            assert(spec_obj_get(fs1, "body"@) == Some(grid_value(b)));
        },
        (Some(t), None) => {
            assert(fs =~= seq![("title"@, SpecValue::Strand(t))]);
            let fs1 = fs.drop_first();
            assert(fs1 =~= Seq::<(Seq<char>, SpecValue)>::empty());
            assert(spec_obj_get(fs, "title"@) == Some(SpecValue::Strand(t)));
            assert(spec_obj_get(fs, "body"@) == spec_obj_get(fs1, "body"@));
            assert(spec_obj_get(fs1, "body"@) is None);
        },
        (None, Some(b)) => {
            lemma_patch_omits_absent_title(b);
        },
        (None, None) => {
            assert(fs =~= Seq::<(Seq<char>, SpecValue)>::empty());
        },
    }
}

} // verus!

