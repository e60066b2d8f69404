//! The record controller: builds the parameterized store requests for
//! the five operations and interprets the store's responses.
//!
//! The store itself is an outside collaborator that may suspend; the
//! caller executes a built [`StoreRequest`] against it and hands the
//! resulting [`ResultSet`] sequence back to the interpreter functions
//! here. The controller holds no state between calls.

use vstd::prelude::*;
use vstd::string::StringExecFns;
use crate::convert::{value_to_array, value_to_object, Creatable, Patchable};
use crate::error::{Error, SpecError};
use crate::todo_model::{
    grid_view, patch_value, spec_object_to_todo, Content, SpecContent, SpecTodoPatch, TodoPatch,
};
use crate::value::{
    lemma_fields_push, lemma_values_model, spec_kind, spec_of_fields, spec_of_value,
    spec_of_values, Kind, Object, SpecValue, Value,
};

verus! {

/// Mathematical model of a [`StoreRequest`].
pub struct SpecStoreRequest {
    pub sql: Seq<char>,
    pub vars: Option<Seq<(Seq<char>, SpecValue)>>,
    pub one_shot: bool,
}

/// One query for the store: a fixed template, the variables bound to it,
/// and whether the caller consumes only the first yielded result set.
#[derive(Debug)]
pub struct StoreRequest {
    pub sql: String,
    pub vars: Option<Vec<(String, Value)>>,
    pub one_shot: bool,
}

impl View for StoreRequest {
    type V = SpecStoreRequest;

    open spec fn view(&self) -> SpecStoreRequest {
        SpecStoreRequest {
            sql: self.sql@,
            vars: match self.vars {
                Some(vs) => Some(spec_of_fields(vs@)),
                None => None,
            },
            one_shot: self.one_shot,
        }
    }
}

/// One unit of the store's response to a single statement: a dynamic
/// value payload, or the store's execution error.
#[derive(Debug)]
pub struct ResultSet {
    pub result: Result<Value, String>,
}

impl View for ResultSet {
    type V = Result<SpecValue, Seq<char>>;

    open spec fn view(&self) -> Result<SpecValue, Seq<char>> {
        match &self.result {
            Ok(v) => Ok(spec_of_value(*v)),
            Err(m) => Err(m@),
        }
    }
}

/// The model of a response: each result set's model in order.
pub open spec fn ress_view(s: Seq<ResultSet>) -> Seq<Result<SpecValue, Seq<char>>> {
    Seq::new(s.len(), |i: int| s[i]@)
}

/// The first row of the first result set: owed by create, get and
/// update, so its absence is a missing-result fault; a payload that is
/// no array at all is a shape mismatch.
pub open spec fn spec_first_row(ress: Seq<Result<SpecValue, Seq<char>>>) -> Result<
    SpecValue,
    SpecError,
> {
    if ress.len() == 0 {
        Err(SpecError::MissingResultError)
    } else {
        match ress[0] {
            Err(m) => Err(SpecError::BackendError(m)),
            Ok(SpecValue::Array(rows)) => if rows.len() > 0 {
                Ok(rows[0])
            } else {
                Err(SpecError::MissingResultError)
            },
            Ok(v) => Err(
                SpecError::ConversionError { expected: Kind::Array, got: Some(spec_kind(v)) },
            ),
        }
    }
}

/// The first row narrowed to a field mapping.
pub open spec fn spec_row_object(ress: Seq<Result<SpecValue, Seq<char>>>) -> Result<
    Seq<(Seq<char>, SpecValue)>,
    SpecError,
> {
    match spec_first_row(ress) {
        Err(e) => Err(e),
        Ok(SpecValue::Object(fs)) => Ok(fs),
        Ok(v) => Err(
            SpecError::ConversionError { expected: Kind::Object, got: Some(spec_kind(v)) },
        ),
    }
}

/// Every row narrowed to a field mapping; the first mismatch aborts.
pub open spec fn spec_objects_of(rows: Seq<SpecValue>) -> Result<
    Seq<Seq<(Seq<char>, SpecValue)>>,
    SpecError,
>
    decreases rows.len(),
{
    if rows.len() == 0 {
        Ok(Seq::empty())
    } else {
        match rows[0] {
            SpecValue::Object(fs) => match spec_objects_of(rows.drop_first()) {
                Err(e) => Err(e),
                Ok(rest) => Ok(seq![fs] + rest),
            },
            v => Err(
                SpecError::ConversionError { expected: Kind::Object, got: Some(spec_kind(v)) },
            ),
        }
    }
}

/// The whole first result set narrowed to field mappings, row by row; an
/// empty store yields the empty sequence, not an error.
pub open spec fn spec_all_objects(ress: Seq<Result<SpecValue, Seq<char>>>) -> Result<
    Seq<Seq<(Seq<char>, SpecValue)>>,
    SpecError,
> {
    if ress.len() == 0 {
        Err(SpecError::MissingResultError)
    } else {
        match ress[0] {
            Err(m) => Err(SpecError::BackendError(m)),
            Ok(SpecValue::Array(rows)) => spec_objects_of(rows),
            Ok(v) => Err(
                SpecError::ConversionError { expected: Kind::Array, got: Some(spec_kind(v)) },
            ),
        }
    }
}

/// Whether a delete execution is acknowledged: only the store's own
/// error is surfaced; the payload is never read.
pub open spec fn spec_delete_ack(ress: Seq<Result<SpecValue, Seq<char>>>) -> Result<
    (),
    SpecError,
> {
    if ress.len() == 0 {
        Err(SpecError::MissingResultError)
    } else {
        match ress[0] {
            Err(m) => Err(SpecError::BackendError(m)),
            Ok(_) => Ok(()),
        }
    }
}

/// The generic CRUD facade over the store: each operation builds its
/// parameterized request, and a matching interpreter below reads the
/// store's answer. Rejected inputs never yield a request, so a rejected
/// call issues no store query at all.
pub struct TodoBMC;

impl TodoBMC {
    /// Builds the create request: the serialized record is bound whole
    /// as `$data` beside the table name `$tb`. Fails only when the
    /// record serializes to something other than a field mapping.
    pub fn create<T: Creatable>(tb: &str, data: &T) -> (r: Result<StoreRequest, Error>)
        ensures
            match r {
                Ok(req) => {
                    &&& data.spec_value() is Object
                    &&& req@.sql == "CREATE type::table($tb) CONTENT $data RETURN *"@
                    &&& req@.vars == Some(
                        seq![("tb"@, SpecValue::Strand(tb@)), ("data"@, data.spec_value())],
                    )
                    &&& req@.one_shot == false
                },
                Err(e) => {
                    &&& !(data.spec_value() is Object)
                    &&& e@ == SpecError::ConversionError {
                        expected: Kind::Object,
                        got: Some(spec_kind(data.spec_value())),
                    }
                },
            },
    {
        let data_obj = value_to_object(data.to_value())?;
        let mut vars: Vec<(String, Value)> = Vec::new();
        let tb_name = String::from_str("tb");
        let tb_val = Value::Strand(tb.to_owned());
        proof {
            lemma_fields_push(vars@, tb_name, tb_val);
        }
        vars.push((tb_name, tb_val));
        let data_name = String::from_str("data");
        let data_val = Value::Object(data_obj);
        proof {
            lemma_fields_push(vars@, data_name, data_val);
        }
        vars.push((data_name, data_val));
        let req = StoreRequest {
            sql: String::from_str("CREATE type::table($tb) CONTENT $data RETURN *"),
            vars: Some(vars),
            one_shot: false,
        };
        proof {
            assert(req@.vars->Some_0 =~= seq![
                ("tb"@, SpecValue::Strand(tb@)),
                ("data"@, data.spec_value()),
            ]);
        }
        Ok(req)
    }

    /// Builds the get-all request: the whole table, no bound variables.
    pub fn get_all() -> (req: StoreRequest)
        ensures
            req@.sql == "SELECT * FROM todo"@,
            req@.vars is None,
            req@.one_shot == true,
    {
        StoreRequest {
            sql: String::from_str("SELECT * FROM todo"),
            vars: None,
            one_shot: true,
        }
    }

    /// Builds the get-by-identifier request; an empty identifier is
    /// rejected outright, so no store call happens for it.
    pub fn get(tid: &str) -> (r: Result<StoreRequest, Error>)
        ensures
            match r {
                Ok(req) => {
                    &&& tid@.len() > 0
                    &&& req@.sql == "SELECT * FROM $th"@
                    &&& req@.vars == Some(seq![("th"@, SpecValue::Thing("todo"@, tid@))])
                    &&& req@.one_shot == true
                },
                Err(e) => tid@.len() == 0 && e@ == SpecError::EmptyIdError,
            },
    {
        if tid.is_empty() {
            return Err(Error::EmptyIdError);
        }
        Ok(StoreRequest {
            sql: String::from_str("SELECT * FROM $th"),
            vars: Some(thing_var(tid)),
            one_shot: true,
        })
    }

    /// Builds the update-by-merge request: the serialized patch is bound
    /// as `$data` beside the typed identifier `$th`. An empty identifier
    /// is rejected outright, so no store call happens for it.
    pub fn update<T: Patchable>(tid: &str, data: &T) -> (r: Result<StoreRequest, Error>)
        ensures
            match r {
                Ok(req) => {
                    &&& tid@.len() > 0
                    &&& req@.sql == "UPDATE $th MERGE $data RETURN *"@
                    &&& req@.vars == Some(
                        seq![
                            ("th"@, SpecValue::Thing("todo"@, tid@)),
                            ("data"@, data.spec_value()),
                        ],
                    )
                    &&& req@.one_shot == true
                },
                Err(e) => tid@.len() == 0 && e@ == SpecError::EmptyIdError,
            },
    {
        if tid.is_empty() {
            return Err(Error::EmptyIdError);
        }
        let mut vars = thing_var(tid);
        let data_name = String::from_str("data");
        let data_val = data.to_value();
        proof {
            lemma_fields_push(vars@, data_name, data_val);
        }
        vars.push((data_name, data_val));
        let req = StoreRequest {
            sql: String::from_str("UPDATE $th MERGE $data RETURN *"),
            vars: Some(vars),
            one_shot: true,
        };
        proof {
            assert(req@.vars->Some_0 =~= seq![
                ("th"@, SpecValue::Thing("todo"@, tid@)),
                ("data"@, data.spec_value()),
            ]);
        }
        Ok(req)
    }

    /// Builds the delete request. An empty identifier is rejected
    /// outright, so no store call happens for it.
    pub fn delete(tid: &str) -> (r: Result<StoreRequest, Error>)
        ensures
            match r {
                Ok(req) => {
                    &&& tid@.len() > 0
                    &&& req@.sql == "DELETE $th RETURN *"@
                    &&& req@.vars == Some(seq![("th"@, SpecValue::Thing("todo"@, tid@))])
                    &&& req@.one_shot == false
                },
                Err(e) => tid@.len() == 0 && e@ == SpecError::EmptyIdError,
            },
    {
        if tid.is_empty() {
            return Err(Error::EmptyIdError);
        }
        Ok(StoreRequest {
            sql: String::from_str("DELETE $th RETURN *"),
            vars: Some(thing_var(tid)),
            one_shot: false,
        })
    }
}

/// Binds the typed identifier of a record in the fixed table as `$th`.
fn thing_var(tid: &str) -> (vars: Vec<(String, Value)>)
    ensures
        spec_of_fields(vars@) == seq![("th"@, SpecValue::Thing("todo"@, tid@))],
{
    let mut vars: Vec<(String, Value)> = Vec::new();
    let th_name = String::from_str("th");
    let th_val = Value::Thing(String::from_str("todo"), tid.to_owned());
    proof {
        lemma_fields_push(vars@, th_name, th_val);
    }
    vars.push((th_name, th_val));
    proof {
        assert(spec_of_fields(vars@) =~= seq![("th"@, SpecValue::Thing("todo"@, tid@))]);
    }
    vars
}

/// Interprets a response owed one row — create, get and update: the
/// first row of the first result set, narrowed to a field mapping.
pub fn row_response(ress: Vec<ResultSet>) -> (r: Result<Object, Error>)
    ensures
        match r {
            Ok(o) => spec_row_object(ress_view(ress@)) == Ok::<
                Seq<(Seq<char>, SpecValue)>,
                SpecError,
            >(o@),
            Err(e) => spec_row_object(ress_view(ress@)) == Err::<
                Seq<(Seq<char>, SpecValue)>,
                SpecError,
            >(e@),
        },
{
    let ghost sress = ress_view(ress@);
    let mut sets = ress;
    if sets.len() == 0 {
        return Err(Error::MissingResultError);
    }
    let first = sets.remove(0);
    proof {
        assert(sress[0] == first@);
    }
    let v = match first.result {
        Err(m) => {
            return Err(Error::BackendError(m));
        },
        Ok(v) => v,
    };
    let rows = value_to_array(v)?;
    proof {
        lemma_values_model(rows@);
    }
    if rows.len() == 0 {
        return Err(Error::MissingResultError);
    }
    let mut rows = rows;
    let row = rows.remove(0);
    value_to_object(row)
}

/// The models of a sequence of field mappings.
pub open spec fn objects_view(objs: Seq<Object>) -> Seq<Seq<(Seq<char>, SpecValue)>> {
    Seq::new(objs.len(), |i: int| objs[i]@)
}

/// A successful prefix of rows fixes what narrowing them all yields.
proof fn lemma_objects_of_prefix(rows: Seq<SpecValue>, done: Seq<Seq<(Seq<char>, SpecValue)>>)
    requires
        done.len() <= rows.len(),
        forall|k: int|
            0 <= k < done.len() ==> #[trigger] rows[k] == SpecValue::Object(done[k]),
    ensures
        spec_objects_of(rows) == match spec_objects_of(rows.skip(done.len() as int)) {
            Ok(rest) => Ok::<Seq<Seq<(Seq<char>, SpecValue)>>, SpecError>(done + rest),
            Err(e) => Err(e),
        },
    decreases done.len(),
{
    if done.len() == 0 {
        assert(rows.skip(0) =~= rows);
        assert(forall|rest: Seq<Seq<(Seq<char>, SpecValue)>>| done + rest =~= rest);
    } else {
        assert(rows[0] == SpecValue::Object(done[0]));
        lemma_objects_of_prefix(rows.drop_first(), done.drop_first());
        assert(rows.drop_first().skip(done.len() - 1) =~= rows.skip(done.len() as int));
        assert(forall|rest: Seq<Seq<(Seq<char>, SpecValue)>>|
            seq![done[0]] + (done.drop_first() + rest) =~= done + rest);
    }
}

/// Interprets the get-all response: every row of the first result set
/// narrowed to a field mapping, independently; a single mismatch aborts
/// the whole call, and an empty table yields the empty sequence.
pub fn rows_response(ress: Vec<ResultSet>) -> (r: Result<Vec<Object>, Error>)
    ensures
        match r {
            Ok(objs) => spec_all_objects(ress_view(ress@)) == Ok::<
                Seq<Seq<(Seq<char>, SpecValue)>>,
                SpecError,
            >(objects_view(objs@)),
            Err(e) => spec_all_objects(ress_view(ress@)) == Err::<
                Seq<Seq<(Seq<char>, SpecValue)>>,
                SpecError,
            >(e@),
        },
{
    let ghost sress = ress_view(ress@);
    let mut sets = ress;
    if sets.len() == 0 {
        return Err(Error::MissingResultError);
    }
    let first = sets.remove(0);
    proof {
        assert(sress[0] == first@);
    }
    let v = match first.result {
        Err(m) => {
            return Err(Error::BackendError(m));
        },
        Ok(v) => v,
    };
    let mut rows = value_to_array(v)?;
    let ghost orig = spec_of_values(rows@);
    proof {
        lemma_values_model(rows@);
        assert(orig.skip(0) =~= orig);
    }
    let mut objs: Vec<Object> = Vec::new();
    while rows.len() > 0
        invariant
            spec_all_objects(ress_view(ress@)) == spec_objects_of(orig),
            objs@.len() + rows@.len() == orig.len(),
            spec_of_values(rows@) == orig.skip(objs@.len() as int),
            forall|k: int|
                0 <= k < objs@.len() ==> #[trigger] orig[k] == SpecValue::Object(
                    objects_view(objs@)[k],
                ),
        decreases rows@.len(),
    {
        proof {
            lemma_values_model(rows@);
        }
        let ghost before = rows@;
        let row = rows.remove(0);
        proof {
            lemma_values_model(rows@);
            assert(spec_of_values(before).len() == before.len());
            assert(spec_of_values(before)[0] == spec_of_value(before[0]));
            assert(spec_of_values(rows@) =~= spec_of_values(before).drop_first());
            assert(spec_of_values(before).drop_first() =~= orig.skip(objs@.len() as int + 1));
            assert(orig.skip(objs@.len() as int)[0] == orig[objs@.len() as int]);
            assert(spec_of_value(row) == orig[objs@.len() as int]);
        }
        match row {
            Value::Object(o) => {
                let ghost prev = objs@;
                objs.push(o);
                proof {
                    assert(objects_view(objs@) =~= objects_view(prev).push(o@));
                    assert(forall|k: int|
                        0 <= k < prev.len() ==> objects_view(objs@)[k] == #[trigger] objects_view(
                            prev,
                        )[k]);
                }
            },
            other => {
                proof {
                    lemma_objects_of_prefix(orig, objects_view(objs@));
                    assert(orig.skip(objs@.len() as int).len() > 0);
                    assert(orig.skip(objs@.len() as int)[0] == orig[objs@.len() as int]);
                }
                return Err(
                    Error::ConversionError { expected: Kind::Object, got: Some(other.kind()) },
                );
            },
        }
    }
    proof {
        lemma_objects_of_prefix(orig, objects_view(objs@));
        assert(orig.skip(objs@.len() as int) =~= Seq::<SpecValue>::empty());
        assert(objects_view(objs@) + Seq::<Seq<(Seq<char>, SpecValue)>>::empty() =~= objects_view(
            objs@,
        ));
    }
    Ok(objs)
}

/// Interprets a delete response: the store's own execution error is
/// surfaced; otherwise the receipt is the identifier `todo:` + key,
/// exactly, whatever the delete's returned payload held.
pub fn delete_receipt(tid: &str, ress: Vec<ResultSet>) -> (r: Result<String, Error>)
    ensures
        match r {
            Ok(s) => spec_delete_ack(ress_view(ress@)) is Ok && s@ == "todo:"@ + tid@,
            Err(e) => spec_delete_ack(ress_view(ress@)) == Err::<(), SpecError>(e@),
        },
{
    let ghost sress = ress_view(ress@);
    let mut sets = ress;
    if sets.len() == 0 {
        return Err(Error::MissingResultError);
    }
    let first = sets.remove(0);
    proof {
        assert(sress[0] == first@);
    }
    match first.result {
        Err(m) => Err(Error::BackendError(m)),
        Ok(_) => Ok(String::from_str("todo:").concat(tid)),
    }
}

/// What replacing one cell yields: the fetched row re-typed into a
/// record, both indices checked against the live grid, and the grid with
/// that one cell replaced — or the first fault along the way.
pub open spec fn spec_item_update(
    tid: Seq<char>,
    sress: Seq<Result<SpecValue, Seq<char>>>,
    row: int,
    col: int,
    cell: SpecContent,
) -> Result<Seq<Seq<SpecContent>>, SpecError> {
    if tid.len() == 0 {
        Err(SpecError::EmptyIdError)
    } else {
        match spec_row_object(sress) {
            Err(e) => Err(e),
            Ok(fs) => match spec_object_to_todo(fs) {
                Err(e) => Err(e),
                Ok(t) => if 0 <= row < t.body.len() && 0 <= col < t.body[row].len() {
                    Ok(t.body.update(row, t.body[row].update(col, cell)))
                } else {
                    Err(SpecError::IndexOutOfBounds)
                },
            },
        }
    }
}

/// Replaces one cell of a stored record's body grid: re-types the
/// fetched row, bounds-checks both indices against the live grid, and
/// builds the merge request whose patch carries only the replaced body —
/// the title is left absent. Out-of-range indices yield an error and no
/// request, so nothing is written.
pub fn update_todo_item(
    tid: &str,
    ress: Vec<ResultSet>,
    index_1: usize,
    index_2: usize,
    new_value: Content,
) -> (r: Result<StoreRequest, Error>)
    ensures
        match r {
            Ok(req) => {
                &&& spec_item_update(
                    tid@,
                    ress_view(ress@),
                    index_1 as int,
                    index_2 as int,
                    new_value@,
                ) matches Ok(grid) && req@.vars == Some(
                    seq![
                        ("th"@, SpecValue::Thing("todo"@, tid@)),
                        (
                            "data"@,
                            patch_value(SpecTodoPatch { title: None, body: Some(grid) }),
                        ),
                    ],
                )
                &&& req@.sql == "UPDATE $th MERGE $data RETURN *"@
                &&& req@.one_shot == true
            },
            Err(e) => spec_item_update(
                tid@,
                ress_view(ress@),
                index_1 as int,
                index_2 as int,
                new_value@,
            ) == Err::<Seq<Seq<SpecContent>>, SpecError>(e@),
        },
{
    if tid.is_empty() {
        return Err(Error::EmptyIdError);
    }
    let o = row_response(ress)?;
    let todo = crate::todo_model::object_to_todo(&o)?;
    let ghost t = todo@;
    if index_1 < todo.body.len() && index_2 < todo.body[index_1].len() {
        let mut body = todo.body;
        let ghost body0 = body@;
        let mut grid_row = body.remove(index_1);
        let ghost row0 = grid_row@;
        grid_row[index_2] = new_value;
        proof {
            assert(grid_row@ =~= row0.update(index_2 as int, new_value));
        }
        body.insert(index_1, grid_row);
        proof {
            assert(body@ =~= body0.update(index_1 as int, grid_row));
            assert(grid_view(body@) =~~= t.body.update(
                index_1 as int,
                t.body[index_1 as int].update(index_2 as int, new_value@),
            ));
        }
        let patch = TodoPatch { title: None, body: Some(body) };
        TodoBMC::update(tid, &patch)
    } else {
        Err(Error::IndexOutOfBounds)
    }
}

} // verus!
