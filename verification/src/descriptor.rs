//! The server-side-rendering descriptor: a `package.json`-shaped document
//! that points the SSR host at the hashed bundles and embeds the selected
//! application configuration.  The configuration is carried in the
//! library's own JSON value type; floats have no place in it.

use vstd::prelude::*;
use crate::file::dec_digits;
use crate::json::json_quoted;

verus! {

/// A JSON value of the application configuration: the typed carrier for
/// everything the descriptor echoes verbatim.
pub enum ConfigValue {
    Null,
    Bool(bool),
    Int(i64),
    Str(String),
    Arr(Vec<ConfigValue>),
    Obj(Vec<(String, ConfigValue)>),
}

/// The mathematical shape of a configuration value.
#[verifier::ext_equal]
pub enum JsonModel {
    Null,
    Bool(bool),
    Int(int),
    Str(Seq<char>),
    Arr(Seq<JsonModel>),
    Obj(Seq<(Seq<char>, JsonModel)>),
}

/// The model behind a `ConfigValue`.
pub open spec fn cv_model(v: ConfigValue) -> JsonModel
    decreases v, 1int,
{
    match v {
        ConfigValue::Null => JsonModel::Null,
        ConfigValue::Bool(b) => JsonModel::Bool(b),
        ConfigValue::Int(n) => JsonModel::Int(n as int),
        ConfigValue::Str(s) => JsonModel::Str(s@),
        ConfigValue::Arr(items) => JsonModel::Arr(cv_models(items@)),
        ConfigValue::Obj(fields) => JsonModel::Obj(cv_field_models(fields@)),
    }
}

pub open spec fn cv_models(items: Seq<ConfigValue>) -> Seq<JsonModel>
    decreases items, 0int,
{
    if items.len() == 0 {
        Seq::empty()
    } else {
        cv_models(items.drop_last()).push(cv_model(items.last()))
    }
}

pub open spec fn cv_field_models(fields: Seq<(String, ConfigValue)>) -> Seq<(Seq<char>, JsonModel)>
    decreases fields, 0int,
{
    if fields.len() == 0 {
        Seq::empty()
    } else {
        cv_field_models(fields.drop_last()).push(
            (fields.last().0@, cv_model(fields.last().1)),
        )
    }
}

/// How an integer is written in JSON.
pub open spec fn spec_int_chars(n: int) -> Seq<char> {
    if n < 0 {
        seq!['-'] + dec_digits((-n) as nat)
    } else {
        dec_digits(n as nat)
    }
}

/// The compact JSON text of a model: no whitespace, members and items in
/// stored order, strings escaped as the JSON grammar asks.
pub open spec fn spec_model_json(m: JsonModel) -> Seq<char>
    decreases m, 1int,
{
    match m {
        JsonModel::Null => "null"@,
        JsonModel::Bool(b) => if b {
            "true"@
        } else {
            "false"@
        },
        JsonModel::Int(n) => spec_int_chars(n),
        JsonModel::Str(s) => json_quoted(s),
        JsonModel::Arr(items) => seq!['['] + spec_items_json(items) + seq![']'],
        JsonModel::Obj(fields) => seq!['{'] + spec_fields_json(fields) + seq!['}'],
    }
}

pub open spec fn spec_items_json(items: Seq<JsonModel>) -> Seq<char>
    decreases items, 0int,
{
    if items.len() == 0 {
        Seq::empty()
    } else if items.len() == 1 {
        spec_model_json(items.last())
    } else {
        spec_items_json(items.drop_last()) + seq![','] + spec_model_json(items.last())
    }
}

pub open spec fn spec_fields_json(fields: Seq<(Seq<char>, JsonModel)>) -> Seq<char>
    decreases fields, 0int,
{
    if fields.len() == 0 {
        Seq::empty()
    } else if fields.len() == 1 {
        json_quoted(fields.last().0) + seq![':'] + spec_model_json(fields.last().1)
    } else {
        spec_fields_json(fields.drop_last()) + seq![','] + json_quoted(fields.last().0) + seq![
            ':',
        ] + spec_model_json(fields.last().1)
    }
}

/// Writes an `i64` in decimal.
fn i64_to_dec(n: i64) -> (r: String)
    ensures
        r@ == spec_int_chars(n as int),
{
    if n < 0 {
        let mut s = "-".to_owned();
        let magnitude: u128 = (-(n as i128)) as u128;
        let digits = crate::file::u128_to_dec(magnitude);
        s.append(digits.as_str());
        proof {
            reveal_strlit("-");
            assert("-"@ =~= seq!['-']);
        }
        s
    } else {
        crate::file::u128_to_dec(n as u128)
    }
}

/// Serializes one configuration value as compact JSON.
pub fn value_to_json(v: &ConfigValue) -> (r: String)
    ensures
        r@ == spec_model_json(cv_model(*v)),
    decreases *v, 1int, 0int,
{
    match v {
        ConfigValue::Null => "null".to_owned(),
        ConfigValue::Bool(b) => {
            if *b {
                "true".to_owned()
            } else {
                "false".to_owned()
            }
        },
        ConfigValue::Int(n) => i64_to_dec(*n),
        ConfigValue::Str(s) => crate::json::json_quote(s.as_str()),
        ConfigValue::Arr(items) => {
            let mut out = "[".to_owned();
            let inner = arr_items_to_json(items, items.len());
            out.append(inner.as_str());
            out.append("]");
            proof {
                reveal_strlit("[");
                reveal_strlit("]");
                assert("["@ =~= seq!['[']);
                assert("]"@ =~= seq![']']);
                assert(items@.take(items@.len() as int) =~= items@);
                assert(out@ =~= spec_model_json(cv_model(*v)));
            }
            out
        },
        ConfigValue::Obj(fields) => {
            let mut out = "{".to_owned();
            let inner = obj_fields_to_json(fields, fields.len());
            out.append(inner.as_str());
            out.append("}");
            proof {
                reveal_strlit("{");
                reveal_strlit("}");
                assert("{"@ =~= seq!['{']);
                assert("}"@ =~= seq!['}']);
                assert(fields@.take(fields@.len() as int) =~= fields@);
                assert(out@ =~= spec_model_json(cv_model(*v)));
            }
            out
        },
    }
}

fn arr_items_to_json(items: &Vec<ConfigValue>, n: usize) -> (r: String)
    requires
        n <= items@.len(),
    ensures
        r@ == spec_items_json(cv_models(items@.take(n as int))),
    decreases items@, 0int, n,
{
    if n == 0 {
        proof {
            assert(items@.take(0) =~= Seq::<ConfigValue>::empty());
        }
        String::new()
    } else {
        let mut out = arr_items_to_json(items, n - 1);
        if n > 1 {
            out.append(",");
        }
        let piece = value_to_json(&items[n - 1]);
        out.append(piece.as_str());
        proof {
            reveal_strlit(",");
            assert(","@ =~= seq![',']);
            let t = items@.take(n as int);
            assert(t.drop_last() =~= items@.take(n - 1));
            assert(t.last() == items@[n - 1]);
            let ms = cv_models(t);
            assert(ms.drop_last() =~= cv_models(items@.take(n - 1)));
            assert(ms.last() == cv_model(items@[n - 1]));
            assert(out@ =~= spec_items_json(ms));
        }
        out
    }
}

fn obj_fields_to_json(fields: &Vec<(String, ConfigValue)>, n: usize) -> (r: String)
    requires
        n <= fields@.len(),
    ensures
        r@ == spec_fields_json(cv_field_models(fields@.take(n as int))),
    decreases fields@, 0int, n,
{
    if n == 0 {
        proof {
            assert(fields@.take(0) =~= Seq::<(String, ConfigValue)>::empty());
        }
        String::new()
    } else {
        let mut out = obj_fields_to_json(fields, n - 1);
        if n > 1 {
            out.append(",");
        }
        let key = crate::json::json_quote(fields[n - 1].0.as_str());
        out.append(key.as_str());
        out.append(":");
        let piece = value_to_json(&fields[n - 1].1);
        out.append(piece.as_str());
        proof {
            reveal_strlit(",");
            reveal_strlit(":");
            assert(","@ =~= seq![',']);
            assert(":"@ =~= seq![':']);
            let t = fields@.take(n as int);
            assert(t.drop_last() =~= fields@.take(n - 1));
            assert(t.last() == fields@[n - 1]);
            let ms = cv_field_models(t);
            assert(ms.drop_last() =~= cv_field_models(fields@.take(n - 1)));
            assert(ms.last() == (fields@[n - 1].0@, cv_model(fields@[n - 1].1)));
            assert(out@ =~= spec_fields_json(ms));
        }
        out
    }
}

pub proof fn lemma_cv_models_index(items: Seq<ConfigValue>)
    ensures
        cv_models(items).len() == items.len(),
        forall|i: int|
            0 <= i < items.len() ==> cv_models(items)[i] == cv_model(#[trigger] items[i]),
    decreases items.len(),
{
    if items.len() > 0 {
        lemma_cv_models_index(items.drop_last());
        assert(forall|i: int|
            0 <= i < items.len() - 1 ==> items.drop_last()[i] == #[trigger] items[i]);
    }
}

pub proof fn lemma_cv_field_models_index(fields: Seq<(String, ConfigValue)>)
    ensures
        cv_field_models(fields).len() == fields.len(),
        forall|i: int|
            0 <= i < fields.len() ==> cv_field_models(fields)[i] == ((#[trigger] fields[i]).0@,
            cv_model(fields[i].1)),
    decreases fields.len(),
{
    if fields.len() > 0 {
        lemma_cv_field_models_index(fields.drop_last());
        assert(forall|i: int|
            0 <= i < fields.len() - 1 ==> fields.drop_last()[i] == #[trigger] fields[i]);
    }
}

/// A deep copy with the same model.
pub fn cv_clone(v: &ConfigValue) -> (r: ConfigValue)
    ensures
        cv_model(r) == cv_model(*v),
    decreases *v, 1int, 0int,
{
    match v {
        ConfigValue::Null => ConfigValue::Null,
        ConfigValue::Bool(b) => ConfigValue::Bool(*b),
        ConfigValue::Int(n) => ConfigValue::Int(*n),
        ConfigValue::Str(s) => ConfigValue::Str(s.clone()),
        ConfigValue::Arr(items) => {
            let cloned = arr_clone(items, items.len());
            proof {
                assert(items@.take(items@.len() as int) =~= items@);
            }
            ConfigValue::Arr(cloned)
        },
        ConfigValue::Obj(fields) => {
            let cloned = fields_clone(fields, fields.len());
            proof {
                assert(fields@.take(fields@.len() as int) =~= fields@);
            }
            ConfigValue::Obj(cloned)
        },
    }
}

fn arr_clone(items: &Vec<ConfigValue>, n: usize) -> (r: Vec<ConfigValue>)
    requires
        n <= items@.len(),
    ensures
        cv_models(r@) == cv_models(items@.take(n as int)),
        r@.len() == n,
    decreases items@, 0int, n,
{
    if n == 0 {
        proof {
            assert(items@.take(0) =~= Seq::<ConfigValue>::empty());
        }
        Vec::new()
    } else {
        let mut out = arr_clone(items, n - 1);
        let piece = cv_clone(&items[n - 1]);
        let ghost gpiece = cv_model(piece);
        let ghost prev = out@;
        out.push(piece);
        proof {
            let t = items@.take(n as int);
            assert(t.drop_last() =~= items@.take(n - 1));
            assert(t.last() == items@[n - 1]);
            assert(out@.drop_last() =~= prev);
            assert(cv_model(out@.last()) == gpiece);
            assert(cv_models(out@) == cv_models(prev).push(gpiece));
            assert(cv_models(t) == cv_models(t.drop_last()).push(cv_model(t.last())));
            assert(cv_models(out@) == cv_models(t));
        }
        out
    }
}

fn fields_clone(fields: &Vec<(String, ConfigValue)>, n: usize) -> (r: Vec<(String, ConfigValue)>)
    requires
        n <= fields@.len(),
    ensures
        cv_field_models(r@) == cv_field_models(fields@.take(n as int)),
        r@.len() == n,
    decreases fields@, 0int, n,
{
    if n == 0 {
        proof {
            assert(fields@.take(0) =~= Seq::<(String, ConfigValue)>::empty());
        }
        Vec::new()
    } else {
        let mut out = fields_clone(fields, n - 1);
        let key = fields[n - 1].0.clone();
        let piece = cv_clone(&fields[n - 1].1);
        let ghost gkey = key@;
        let ghost gpiece = cv_model(piece);
        let ghost prev = out@;
        out.push((key, piece));
        proof {
            let t = fields@.take(n as int);
            assert(t.drop_last() =~= fields@.take(n - 1));
            assert(t.last() == fields@[n - 1]);
            assert(out@.drop_last() =~= prev);
            assert(out@.last().0@ == gkey && cv_model(out@.last().1) == gpiece);
            assert(cv_field_models(out@) == cv_field_models(prev).push((gkey, gpiece)));
            assert(cv_field_models(t) == cv_field_models(t.drop_last()).push(
                (t.last().0@, cv_model(t.last().1)),
            ));
            assert(cv_field_models(out@) == cv_field_models(t));
        }
        out
    }
}

/// The value of the first member named `k`.
pub open spec fn model_get(fields: Seq<(Seq<char>, JsonModel)>, k: Seq<char>) -> Option<JsonModel>
    decreases fields.len(),
{
    if fields.len() == 0 {
        None
    } else if fields[0].0 == k {
        Some(fields[0].1)
    } else {
        model_get(fields.skip(1), k)
    }
}

/// Member update: the first member named `k` is replaced, or the member
/// appended when none is.
pub open spec fn model_set(
    fields: Seq<(Seq<char>, JsonModel)>,
    k: Seq<char>,
    v: JsonModel,
) -> Seq<(Seq<char>, JsonModel)>
    decreases fields.len(),
{
    if fields.len() == 0 {
        seq![(k, v)]
    } else if fields[0].0 == k {
        seq![(k, v)] + fields.skip(1)
    } else {
        seq![fields[0]] + model_set(fields.skip(1), k, v)
    }
}

proof fn lemma_model_set_skip(
    fields: Seq<(Seq<char>, JsonModel)>,
    k: Seq<char>,
    v: JsonModel,
    pos: int,
)
    requires
        0 <= pos <= fields.len(),
        forall|i: int| 0 <= i < pos ==> (#[trigger] fields[i]).0 != k,
    ensures
        model_set(fields, k, v) == fields.take(pos) + model_set(fields.skip(pos), k, v),
    decreases pos,
{
    if pos == 0 {
        assert(fields.take(0) =~= Seq::<(Seq<char>, JsonModel)>::empty());
        assert(fields.skip(0) =~= fields);
        assert(fields.take(0) + model_set(fields, k, v) =~= model_set(fields, k, v));
    } else {
        lemma_model_set_skip(fields.skip(1), k, v, pos - 1);
        assert(fields.skip(1).take(pos - 1) =~= fields.take(pos).skip(1));
        assert(fields.skip(1).skip(pos - 1) =~= fields.skip(pos));
        assert(seq![fields[0]] + (fields.take(pos).skip(1) + model_set(
            fields.skip(pos),
            k,
            v,
        )) =~= fields.take(pos) + model_set(fields.skip(pos), k, v));
    }
}

/// Sets a member of a configuration object, replacing the first member of
/// that name or appending one.
fn obj_set(fields: &mut Vec<(String, ConfigValue)>, key: String, value: ConfigValue)
    ensures
        cv_field_models(final(fields)@) == model_set(
            cv_field_models(old(fields)@),
            key@,
            cv_model(value),
        ),
{
    let ghost m = cv_field_models(fields@);
    let ghost gkey = key@;
    let ghost gvalue = cv_model(value);
    proof {
        lemma_cv_field_models_index(fields@);
    }
    let mut pos: usize = 0;
    while pos < fields.len()
        invariant
            0 <= pos <= fields@.len(),
            m == cv_field_models(fields@),
            m == cv_field_models(old(fields)@),
            gkey == key@,
            gvalue == cv_model(value),
            m.len() == fields@.len(),
            forall|i: int| 0 <= i < m.len() ==> m[i] == ((#[trigger] fields@[i]).0@,
            cv_model(fields@[i].1)),
            forall|i: int| 0 <= i < pos ==> (#[trigger] m[i]).0 != gkey,
        decreases fields@.len() - pos,
    {
        if crate::strutil::str_eq(fields[pos].0.as_str(), key.as_str()) {
            proof {
                lemma_model_set_skip(m, gkey, gvalue, pos as int);
                assert(m.skip(pos as int)[0] == m[pos as int]);
                assert(model_set(m.skip(pos as int), gkey, gvalue) == seq![
                    (gkey, gvalue),
                ] + m.skip(pos as int).skip(1));
                assert(m.skip(pos as int).skip(1) =~= m.skip(pos + 1));
            }
            let ghost old_fields = fields@;
            fields.set(pos, (key, value));
            proof {
                lemma_cv_field_models_index(fields@);
                let new_m = cv_field_models(fields@);
                let rhs = m.take(pos as int) + (seq![(gkey, gvalue)] + m.skip(pos + 1));
                assert(fields@[pos as int].0@ == gkey);
                assert(cv_model(fields@[pos as int].1) == gvalue);
                assert forall|q: int| 0 <= q < new_m.len() implies new_m[q] == rhs[q] by {
                    if q != pos {
                        assert(fields@[q] == old_fields[q]);
                        assert(m[q] == (old_fields[q].0@, cv_model(old_fields[q].1)));
                    }
                }
                assert(new_m =~= rhs);
                assert(new_m == model_set(m, gkey, gvalue));
            }
            return ;
        }
        pos += 1;
    }
    proof {
        lemma_model_set_skip(m, gkey, gvalue, m.len() as int);
        assert(m.skip(m.len() as int) =~= Seq::<(Seq<char>, JsonModel)>::empty());
        assert(model_set(m, gkey, gvalue) == m.take(m.len() as int) + seq![(gkey, gvalue)]);
        assert(m.take(m.len() as int) =~= m);
    }
    let ghost old_fields = fields@;
    fields.push((key, value));
    proof {
        lemma_cv_field_models_index(fields@);
        let new_m = cv_field_models(fields@);
        let rhs = m + seq![(gkey, gvalue)];
        assert(fields@.last().0@ == gkey);
        assert(cv_model(fields@.last().1) == gvalue);
        assert forall|q: int| 0 <= q < new_m.len() implies new_m[q] == rhs[q] by {
            if q < m.len() {
                assert(fields@[q] == old_fields[q]);
                assert(m[q] == (old_fields[q].0@, cv_model(old_fields[q].1)));
            }
        }
        assert(new_m =~= rhs);
    }
}

/// The members of an object model; any other value stands for no members.
pub open spec fn obj_fields_of(m: JsonModel) -> Seq<(Seq<char>, JsonModel)> {
    match m {
        JsonModel::Obj(fields) => fields,
        _ => Seq::empty(),
    }
}

/// The application environment as the descriptor embeds it: the `APP`
/// block gains `autoboot` off, the application's `name` and the fixed
/// `version`, and the top level gains the two module-unification flags.
/// A missing or non-object `APP` block counts as empty.
pub open spec fn spec_augment_env(env: JsonModel, app_name: Seq<char>) -> JsonModel {
    let fields = obj_fields_of(env);
    let app_fields = match model_get(fields, "APP"@) {
        Some(m) => obj_fields_of(m),
        None => Seq::empty(),
    };
    let app2 = model_set(
        model_set(
            model_set(app_fields, "autoboot"@, JsonModel::Bool(false)),
            "name"@,
            JsonModel::Str(app_name),
        ),
        "version"@,
        JsonModel::Str("0.0.0+b5f80b0d"@),
    );
    JsonModel::Obj(
        model_set(
            model_set(
                model_set(fields, "APP"@, JsonModel::Obj(app2)),
                "exportApplicationGlobal"@,
                JsonModel::Bool(true),
            ),
            "isModuleUnification"@,
            JsonModel::Bool(true),
        ),
    )
}

/// Finds a member of a configuration object.
fn obj_get<'a>(fields: &'a Vec<(String, ConfigValue)>, key: &str) -> (r: Option<&'a ConfigValue>)
    ensures
        match r {
            Some(v) => model_get(cv_field_models(fields@), key@) == Some(cv_model(*v)),
            None => model_get(cv_field_models(fields@), key@) is None,
        },
{
    let ghost m = cv_field_models(fields@);
    proof {
        lemma_cv_field_models_index(fields@);
        assert(m.skip(0) =~= m);
    }
    let mut i: usize = 0;
    while i < fields.len()
        invariant
            0 <= i <= fields@.len(),
            m == cv_field_models(fields@),
            m.len() == fields@.len(),
            forall|q: int| 0 <= q < m.len() ==> m[q] == ((#[trigger] fields@[q]).0@,
            cv_model(fields@[q].1)),
            model_get(m, key@) == model_get(m.skip(i as int), key@),
        decreases fields@.len() - i,
    {
        proof {
            assert(m.skip(i as int)[0] == m[i as int]);
            assert(m.skip(i as int).skip(1) =~= m.skip(i + 1));
        }
        if crate::strutil::str_eq(fields[i].0.as_str(), key) {
            return Some(&fields[i].1);
        }
        i += 1;
    }
    proof {
        assert(m.skip(m.len() as int) =~= Seq::<(Seq<char>, JsonModel)>::empty());
    }
    None
}

/// Builds the augmented environment object for the descriptor's config
/// block.
pub fn augment_env(env: &ConfigValue, app_name: &str) -> (r: ConfigValue)
    ensures
        cv_model(r) == spec_augment_env(cv_model(*env), app_name@),
{
    let mut fields: Vec<(String, ConfigValue)> = match env {
        ConfigValue::Obj(fields) => {
            let cloned = fields_clone(fields, fields.len());
            proof {
                assert(fields@.take(fields@.len() as int) =~= fields@);
            }
            cloned
        },
        _ => Vec::new(),
    };
    proof {
        assert(cv_field_models(fields@) == obj_fields_of(cv_model(*env)));
    }
    let mut app_fields: Vec<(String, ConfigValue)> = match obj_get(&fields, "APP") {
        Some(ConfigValue::Obj(app)) => {
            let cloned = fields_clone(app, app.len());
            proof {
                assert(app@.take(app@.len() as int) =~= app@);
            }
            cloned
        },
        _ => Vec::new(),
    };
    obj_set(&mut app_fields, "autoboot".to_owned(), ConfigValue::Bool(false));
    obj_set(
        &mut app_fields,
        "name".to_owned(),
        ConfigValue::Str(app_name.to_owned()),
    );
    obj_set(
        &mut app_fields,
        "version".to_owned(),
        ConfigValue::Str("0.0.0+b5f80b0d".to_owned()),
    );
    obj_set(&mut fields, "APP".to_owned(), ConfigValue::Obj(app_fields));
    obj_set(
        &mut fields,
        "exportApplicationGlobal".to_owned(),
        ConfigValue::Bool(true),
    );
    obj_set(
        &mut fields,
        "isModuleUnification".to_owned(),
        ConfigValue::Bool(true),
    );
    ConfigValue::Obj(fields)
}

} // verus!
