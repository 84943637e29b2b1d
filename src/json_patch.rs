use vstd::prelude::*;
use vstd::string::StringExecFns;
use crate::error::UpdateError;

verus! {

broadcast use vstd::std_specs::vec::axiom_vec_index_decreases;

/// The mathematical value of a JSON document.
pub enum Json {
    Null,
    Bool(bool),
    Num(Seq<char>),
    Text(Seq<char>),
    Arr(Seq<Json>),
    Obj(Seq<(Seq<char>, Json)>),
}

/// A parsed JSON document. Numbers keep their source text; objects keep
/// their members in order.
#[derive(Debug, PartialEq)]
pub enum JsonValue {
    Null,
    Bool(bool),
    Number(String),
    Str(String),
    Array(Vec<JsonValue>),
    Object(Vec<(String, JsonValue)>),
}

impl JsonValue {
    pub open spec fn model(&self) -> Json
        decreases self,
    {
        match self {
            JsonValue::Null => Json::Null,
            JsonValue::Bool(b) => Json::Bool(*b),
            JsonValue::Number(n) => Json::Num(n@),
            JsonValue::Str(s) => Json::Text(s@),
            JsonValue::Array(a) => Json::Arr(
                Seq::new(a.len() as nat, |i: int| if 0 <= i < a.len() { a[i].model() } else { Json::Null }),
            ),
            JsonValue::Object(es) => Json::Obj(
                Seq::new(
                    es.len() as nat,
                    |i: int| if 0 <= i < es.len() { (es[i].0@, es[i].1.model()) } else { (Seq::empty(), Json::Null) },
                ),
            ),
        }
    }
}

/// `i` is the first position of a member with key `k`.
pub open spec fn is_first_key(es: Seq<(Seq<char>, Json)>, k: Seq<char>, i: int) -> bool {
    &&& 0 <= i < es.len()
    &&& es[i].0 == k
    &&& forall|j: int| 0 <= j < i ==> es[j].0 != k
}

/// The position of the member with key `k`, if the object has one.
pub open spec fn key_pos(es: Seq<(Seq<char>, Json)>, k: Seq<char>) -> Option<int> {
    if exists|i: int| is_first_key(es, k, i) {
        Some(choose|i: int| is_first_key(es, k, i))
    } else {
        None
    }
}

/// The value reached from `v` by following the keys of `path`.
pub open spec fn get_path(v: Json, path: Seq<Seq<char>>) -> Option<Json>
    decreases path.len(),
{
    if path.len() == 0 {
        Some(v)
    } else {
        match v {
            Json::Obj(es) => match key_pos(es, path[0]) {
                Some(i) => get_path(es[i].1, path.drop_first()),
                None => None,
            },
            _ => None,
        }
    }
}

/// The error for a key that is missing `rest` keys before the end of the path.
pub open spec fn missing_error(rest: Seq<Seq<char>>) -> UpdateError {
    if rest.len() <= 1 {
        UpdateError::KeyNotFound
    } else {
        UpdateError::PathNotFound
    }
}

/// `v` with the value at `path` replaced by the string `x`. An intermediate
/// key that is missing gives `PathNotFound`; a missing last key (or no key
/// at all) gives `KeyNotFound`.
pub open spec fn patch(v: Json, path: Seq<Seq<char>>, x: Seq<char>) -> Result<Json, UpdateError>
    decreases path.len(),
{
    if path.len() == 0 {
        Err(UpdateError::KeyNotFound)
    } else {
        match v {
            Json::Obj(es) => match key_pos(es, path[0]) {
                Some(i) => if path.len() == 1 {
                    Ok(Json::Obj(es.update(i, (es[i].0, Json::Text(x)))))
                } else {
                    match patch(es[i].1, path.drop_first(), x) {
                        Ok(c) => Ok(Json::Obj(es.update(i, (es[i].0, c)))),
                        Err(e) => Err(e),
                    }
                },
                None => Err(missing_error(path)),
            },
            _ => Err(missing_error(path)),
        }
    }
}

pub open spec fn keys_view(keys: Seq<String>) -> Seq<Seq<char>> {
    keys.map_values(|s: String| s@)
}

proof fn lemma_key_pos_unique(es: Seq<(Seq<char>, Json)>, k: Seq<char>, i: int)
    requires
        is_first_key(es, k, i),
    ensures
        key_pos(es, k) == Some(i),
{
    let j = choose|j: int| is_first_key(es, k, j);
    assert(is_first_key(es, k, j));
    assert(j == i) by {
        if j < i {
            assert(es[j].0 != k);
        } else if i < j {
            assert(es[i].0 != k);
        }
    }
}

proof fn lemma_object_model(v: &JsonValue)
    requires
        v is Object,
    ensures
        v.model() is Obj,
        v.model()->Obj_0.len() == v->Object_0.len(),
        forall|j: int|
            0 <= j < v->Object_0.len() ==> (#[trigger] v.model()->Obj_0[j]) == (
            v->Object_0[j].0@,
            v->Object_0[j].1.model(),
        ),
{
}

/// The position of the first member keyed `k`, or `None`.
fn find_key(es: &Vec<(String, JsonValue)>, k: &String) -> (r: Option<usize>)
    ensures
        match r {
            Some(i) => i < es.len() && is_first_key(
                JsonValue::Object(*es).model()->Obj_0,
                k@,
                i as int,
            ),
            None => key_pos(JsonValue::Object(*es).model()->Obj_0, k@) is None,
        },
{
    let ghost m = JsonValue::Object(*es).model()->Obj_0;
    proof {
        lemma_object_model(&JsonValue::Object(*es));
    }
    let mut i: usize = 0;
    while i < es.len()
        invariant
            0 <= i <= es.len(),
            m == JsonValue::Object(*es).model()->Obj_0,
            m.len() == es.len(),
            forall|j: int| 0 <= j < es.len() ==> (#[trigger] m[j]).0 == es@[j].0@,
            forall|j: int| 0 <= j < i ==> m[j].0 != k@,
        decreases es.len() - i,
    {
        if es[i].0 == *k {
            assert(m[i as int].0 == k@);
            return Some(i);
        }
        i = i + 1;
    }
    proof {
        if exists|j: int| is_first_key(m, k@, j) {
            let j = choose|j: int| is_first_key(m, k@, j);
            assert(m[j].0 != k@);
        }
    }
    None
}

/// Whether `patch` succeeds on `v` and the keys from `depth` on, without changing anything.
fn patch_status(v: &JsonValue, keys: &Vec<String>, depth: usize) -> (r: Result<(), UpdateError>)
    requires
        depth <= keys.len(),
    ensures
        forall|x: Seq<char>|
            match #[trigger] patch(v.model(), keys_view(keys@).subrange(depth as int, keys.len() as int), x) {
                Ok(_) => r is Ok,
                Err(e) => r == Err::<(), UpdateError>(e),
            },
    decreases keys.len() - depth,
{
    let ghost path = keys_view(keys@).subrange(depth as int, keys.len() as int);
    if depth == keys.len() {
        return Err(UpdateError::KeyNotFound);
    }
    let last = depth + 1 == keys.len();
    let missing = if last { UpdateError::KeyNotFound } else { UpdateError::PathNotFound };
    assert(path[0] == keys@[depth as int]@);
    match v {
        JsonValue::Object(es) => {
            proof {
                lemma_object_model(v);
            }
            match find_key(es, &keys[depth]) {
                Some(i) => {
                    proof {
                        lemma_key_pos_unique(v.model()->Obj_0, path[0], i as int);
                    }
                    if last {
                        Ok(())
                    } else {
                        let ghost sub = keys_view(keys@).subrange(depth + 1, keys.len() as int);
                        assert(path.drop_first() =~= sub);
                        let r = patch_status(&es[i].1, keys, depth + 1);
                        assert forall|x: Seq<char>|
                            match #[trigger] patch(v.model(), path, x) {
                                Ok(_) => r is Ok,
                                Err(e) => r == Err::<(), UpdateError>(e),
                            } by {
                            let c = patch(es@[i as int].1.model(), sub, x);
                        }
                        r
                    }
                },
                None => Err(missing),
            }
        },
        _ => Err(missing),
    }
}

/// `v` with the value at the keys from `depth` on set to the string `x`;
/// the caller has checked that the path is there.
fn set_path(v: JsonValue, keys: &Vec<String>, depth: usize, x: &str) -> (r: JsonValue)
    requires
        depth <= keys.len(),
        patch(v.model(), keys_view(keys@).subrange(depth as int, keys.len() as int), x@) is Ok,
    ensures
        patch(v.model(), keys_view(keys@).subrange(depth as int, keys.len() as int), x@) == Ok::<
            Json,
            UpdateError,
        >(r.model()),
    decreases keys.len() - depth,
{
    let ghost path = keys_view(keys@).subrange(depth as int, keys.len() as int);
    let ghost vm = v.model();
    if depth == keys.len() {
        return v;
    }
    assert(path[0] == keys@[depth as int]@);
    match v {
        JsonValue::Object(mut es) => {
            let ghost old_es = es;
            proof {
                lemma_object_model(&JsonValue::Object(old_es));
            }
            let i = match find_key(&es, &keys[depth]) {
                Some(i) => i,
                None => {
                    return JsonValue::Object(es);
                },
            };
            proof {
                lemma_key_pos_unique(vm->Obj_0, path[0], i as int);
            }
            let (k, child) = es.remove(i);
            let nv = if depth + 1 == keys.len() {
                JsonValue::Str(String::from_str(x))
            } else {
                let ghost sub = keys_view(keys@).subrange(depth + 1, keys.len() as int);
                assert(path.drop_first() =~= sub);
                set_path(child, keys, depth + 1, x)
            };
            let ghost nvm = nv.model();
            es.insert(i, (k, nv));
            let r = JsonValue::Object(es);
            proof {
                lemma_object_model(&r);
                assert(es@ =~= old_es@.update(i as int, (k, nv)));
                assert(r.model()->Obj_0 =~= vm->Obj_0.update(i as int, (vm->Obj_0[i as int].0, nvm)));
            }
            r
        },
        other => other,
    }
}

/// Sets the value at the key path `keys` of `doc` to the string
/// `new_value`. Each key but the last must name a member of the object
/// reached so far (else `PathNotFound`); the last must name a member of the
/// final object (else `KeyNotFound`). On an error `doc` is left as it was.
pub fn update_json_value(doc: &mut JsonValue, keys: &Vec<String>, new_value: &str) -> (r: Result<
    (),
    UpdateError,
>)
    ensures
        match patch(old(doc).model(), keys_view(keys@), new_value@) {
            Ok(m) => r is Ok && final(doc).model() == m,
            Err(e) => r == Err::<(), UpdateError>(e) && *final(doc) == *old(doc),
        },
{
    assert(keys_view(keys@).subrange(0, keys.len() as int) =~= keys_view(keys@));
    match patch_status(doc, keys, 0) {
        Err(e) => Err(e),
        Ok(()) => {
            let mut v = JsonValue::Null;
            std::mem::swap(doc, &mut v);
            *doc = set_path(v, keys, 0, new_value);
            Ok(())
        },
    }
}

proof fn lemma_key_pos_same_keys(es: Seq<(Seq<char>, Json)>, i: int, c: Json, k: Seq<char>)
    requires
        0 <= i < es.len(),
    ensures
        key_pos(es.update(i, (es[i].0, c)), k) == key_pos(es, k),
{
    let fs = es.update(i, (es[i].0, c));
    assert forall|j: int| is_first_key(fs, k, j) <==> is_first_key(es, k, j) by {
        assert forall|m: int| 0 <= m < es.len() implies fs[m].0 == es[m].0 by {}
    }
    if let Some(j) = key_pos(es, k) {
        lemma_key_pos_unique(fs, k, j);
    } else {
        if let Some(j) = key_pos(fs, k) {
            lemma_key_pos_unique(es, k, j);
        }
    }
}

/// After a successful patch the value at the key path is the new string.
pub proof fn lemma_patch_sets_value(v: Json, path: Seq<Seq<char>>, x: Seq<char>)
    requires
        patch(v, path, x) is Ok,
    ensures
        get_path(patch(v, path, x)->Ok_0, path) == Some(Json::Text(x)),
    decreases path.len(),
{
    let es = v->Obj_0;
    let i = key_pos(es, path[0])->Some_0;
    let c = if path.len() == 1 { Json::Text(x) } else { patch(es[i].1, path.drop_first(), x)->Ok_0 };
    lemma_key_pos_same_keys(es, i, c, path[0]);
    if path.len() > 1 {
        lemma_patch_sets_value(es[i].1, path.drop_first(), x);
    } else {
        assert(get_path(c, path.drop_first()) == Some(c));
    }
}

/// A successful patch leaves every path that leaves the patched key path
/// (agrees on the first `d` keys, then names another key) as it was.
pub proof fn lemma_patch_keeps_siblings(
    v: Json,
    path: Seq<Seq<char>>,
    x: Seq<char>,
    q: Seq<Seq<char>>,
    d: int,
)
    requires
        patch(v, path, x) is Ok,
        0 <= d < path.len(),
        d < q.len(),
        q.subrange(0, d) == path.subrange(0, d),
        q[d] != path[d],
    ensures
        get_path(patch(v, path, x)->Ok_0, q) == get_path(v, q),
    decreases d,
{
    let es = v->Obj_0;
    let i = key_pos(es, path[0])->Some_0;
    let c = if path.len() == 1 { Json::Text(x) } else { patch(es[i].1, path.drop_first(), x)->Ok_0 };
    let fs = es.update(i, (es[i].0, c));
    lemma_key_pos_same_keys(es, i, c, q[0]);
    if d == 0 {
        if let Some(j) = key_pos(es, q[0]) {
            assert(j != i);
        }
    } else {
        assert(q[0] == q.subrange(0, d)[0]);
        assert(q[0] == path[0]);
        assert(q.drop_first().subrange(0, d - 1) =~= q.subrange(0, d).drop_first());
        assert(path.drop_first().subrange(0, d - 1) =~= path.subrange(0, d).drop_first());
        lemma_patch_keeps_siblings(es[i].1, path.drop_first(), x, q.drop_first(), d - 1);
    }
}

/// Patching again with the same path and value changes nothing.
pub proof fn lemma_patch_idempotent(v: Json, path: Seq<Seq<char>>, x: Seq<char>)
    requires
        patch(v, path, x) is Ok,
    ensures
        patch(patch(v, path, x)->Ok_0, path, x) == patch(v, path, x),
    decreases path.len(),
{
    let es = v->Obj_0;
    let i = key_pos(es, path[0])->Some_0;
    let c = if path.len() == 1 { Json::Text(x) } else { patch(es[i].1, path.drop_first(), x)->Ok_0 };
    let fs = es.update(i, (es[i].0, c));
    lemma_key_pos_same_keys(es, i, c, path[0]);
    if path.len() > 1 {
        lemma_patch_idempotent(es[i].1, path.drop_first(), x);
    }
    assert(fs.update(i, (fs[i].0, c)) =~= fs);
}

/// When the object the key path leads to lacks the last key, the patch
/// fails with `KeyNotFound`.
pub proof fn lemma_missing_last_key(v: Json, path: Seq<Seq<char>>, x: Seq<char>)
    requires
        path.len() >= 1,
        get_path(v, path.drop_last()) matches Some(Json::Obj(es)) && key_pos(es, path.last()) is None,
    ensures
        patch(v, path, x) == Err::<Json, UpdateError>(UpdateError::KeyNotFound),
    decreases path.len(),
{
    if path.len() > 1 {
        let es = v->Obj_0;
        let i = key_pos(es, path[0])->Some_0;
        assert(path.drop_last()[0] == path[0]);
        assert(path.drop_first().drop_last() =~= path.drop_last().drop_first());
        lemma_missing_last_key(es[i].1, path.drop_first(), x);
    } else {
        assert(path.drop_last() =~= Seq::<Seq<char>>::empty());
    }
}

} // verus!
