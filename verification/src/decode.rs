//! Decoders for the registry's four JSON response shapes.
//!
//! - catalog: `{"repositories": [name, ...]}`, field optional or null
//! - tag list: `{"tags": [tag, ...]}`, field optional or null
//! - manifest, history shape: `{"history": [{"v1Compatibility": doc}, ...]}`
//!   where `doc` is a string holding a further JSON document with a
//!   `created` field — only the first history entry is read
//! - manifest, v2 shape: `{"config": {"digest": d}, "layers": [{"size": n}, ...]}`
//!
//! Each decoder accepts exactly the bodies its specification twin accepts;
//! a body that does not match the shape is reported as a decode error, and
//! members that a shape does not read are stepped over.

use vstd::prelude::*;

use crate::json::{
    skip_ws, skip_value, str_body, int_at, obj_find, lit_at, lit_null, skip_obj, skip_ws_x,
    skip_value_x, str_body_x, int_at_x, obj_find_x, skip_obj_x, null_at_x, LBRACE, LBRACKET,
    RBRACKET, COMMA, QUOTE,
};
use crate::DecodeError;

verus! {

/// The bytes of `"repositories"`.
pub open spec fn key_repositories() -> Seq<u8> {
    seq![114u8, 101u8, 112u8, 111u8, 115u8, 105u8, 116u8, 111u8, 114u8, 105u8, 101u8, 115u8]
}

/// The bytes of `"tags"`.
pub open spec fn key_tags() -> Seq<u8> {
    seq![116u8, 97u8, 103u8, 115u8]
}

/// The bytes of `"history"`.
pub open spec fn key_history() -> Seq<u8> {
    seq![104u8, 105u8, 115u8, 116u8, 111u8, 114u8, 121u8]
}

/// The bytes of `"v1Compatibility"`.
pub open spec fn key_v1_compatibility() -> Seq<u8> {
    seq![118u8, 49u8, 67u8, 111u8, 109u8, 112u8, 97u8, 116u8, 105u8, 98u8, 105u8, 108u8, 105u8, 116u8, 121u8]
}

/// The bytes of `"created"`.
pub open spec fn key_created() -> Seq<u8> {
    seq![99u8, 114u8, 101u8, 97u8, 116u8, 101u8, 100u8]
}

/// The bytes of `"config"`.
pub open spec fn key_config() -> Seq<u8> {
    seq![99u8, 111u8, 110u8, 102u8, 105u8, 103u8]
}

/// The bytes of `"digest"`.
pub open spec fn key_digest() -> Seq<u8> {
    seq![100u8, 105u8, 103u8, 101u8, 115u8, 116u8]
}

/// The bytes of `"layers"`.
pub open spec fn key_layers() -> Seq<u8> {
    seq![108u8, 97u8, 121u8, 101u8, 114u8, 115u8]
}

/// The bytes of `"size"`.
pub open spec fn key_size() -> Seq<u8> {
    seq![115u8, 105u8, 122u8, 101u8]
}

fn key_repositories_x() -> (r: Vec<u8>)
    ensures
        r@ == key_repositories(),
{
    let v = vec![114u8, 101u8, 112u8, 111u8, 115u8, 105u8, 116u8, 111u8, 114u8, 105u8, 101u8, 115u8];
    assert(v@ =~= key_repositories());
    v
}

fn key_tags_x() -> (r: Vec<u8>)
    ensures
        r@ == key_tags(),
{
    let v = vec![116u8, 97u8, 103u8, 115u8];
    assert(v@ =~= key_tags());
    v
}

fn key_history_x() -> (r: Vec<u8>)
    ensures
        r@ == key_history(),
{
    let v = vec![104u8, 105u8, 115u8, 116u8, 111u8, 114u8, 121u8];
    assert(v@ =~= key_history());
    v
}

fn key_v1_compatibility_x() -> (r: Vec<u8>)
    ensures
        r@ == key_v1_compatibility(),
{
    let v = vec![
        118u8, 49u8, 67u8, 111u8, 109u8, 112u8, 97u8, 116u8, 105u8, 98u8, 105u8, 108u8, 105u8, 116u8, 121u8,
    ];
    assert(v@ =~= key_v1_compatibility());
    v
}

fn key_created_x() -> (r: Vec<u8>)
    ensures
        r@ == key_created(),
{
    let v = vec![99u8, 114u8, 101u8, 97u8, 116u8, 101u8, 100u8];
    assert(v@ =~= key_created());
    v
}

fn key_config_x() -> (r: Vec<u8>)
    ensures
        r@ == key_config(),
{
    let v = vec![99u8, 111u8, 110u8, 102u8, 105u8, 103u8];
    assert(v@ =~= key_config());
    v
}

fn key_digest_x() -> (r: Vec<u8>)
    ensures
        r@ == key_digest(),
{
    let v = vec![100u8, 105u8, 103u8, 101u8, 115u8, 116u8];
    assert(v@ =~= key_digest());
    v
}

fn key_layers_x() -> (r: Vec<u8>)
    ensures
        r@ == key_layers(),
{
    let v = vec![108u8, 97u8, 121u8, 101u8, 114u8, 115u8];
    assert(v@ =~= key_layers());
    v
}

fn key_size_x() -> (r: Vec<u8>)
    ensures
        r@ == key_size(),
{
    let v = vec![115u8, 105u8, 122u8, 101u8];
    assert(v@ =~= key_size());
    v
}

/// The views of a sequence of byte vectors.
pub open spec fn views_of(v: Seq<Vec<u8>>) -> Seq<Seq<u8>> {
    Seq::new(v.len(), |i: int| v[i]@)
}

/// A well-formed document whose top-level value is an object: yields the
/// index just past the opening brace.  The whole body must be consumed,
/// up to trailing whitespace.
pub open spec fn doc_obj(s: Seq<u8>) -> Option<int> {
    let t = skip_ws(s, 0);
    if t >= s.len() || s[t] != LBRACE {
        None
    } else {
        match skip_value(s, t) {
            None => None,
            Some(e) => if skip_ws(s, e) == s.len() {
                Some(t + 1)
            } else {
                None
            },
        }
    }
}

/// Mirrors `doc_obj`.
pub fn doc_obj_x(s: &Vec<u8>) -> (r: Option<usize>)
    ensures
        match r {
            Some(p) => doc_obj(s@) == Some(p as int) && p <= s.len(),
            None => doc_obj(s@) is None,
        },
{
    let t = skip_ws_x(s, 0);
    if t >= s.len() {
        None
    } else if s[t] != LBRACE {
        None
    } else {
        match skip_value_x(s, t) {
            None => None,
            Some(e) => {
                if skip_ws_x(s, e) == s.len() {
                    Some(t + 1)
                } else {
                    None
                }
            },
        }
    }
}

/// The elements of an array of strings, starting just past `[` or a `,`;
/// at least one element is expected.
pub open spec fn str_elems(s: Seq<u8>, i: int) -> Option<(Seq<Seq<u8>>, int)>
    decreases s.len() - i,
{
    if i < 0 {
        None
    } else {
        let j = skip_ws(s, i);
        if j >= s.len() || j < i || s[j] != QUOTE {
            None
        } else {
            match str_body(s, j + 1) {
                None => None,
                Some((t, e)) => {
                    let m = skip_ws(s, e);
                    if m >= s.len() {
                        None
                    } else if s[m] == COMMA {
                        if m >= i {
                            match str_elems(s, m + 1) {
                                None => None,
                                Some((rest, k)) => Some((seq![t] + rest, k)),
                            }
                        } else {
                            None
                        }
                    } else if s[m] == RBRACKET {
                        Some((seq![t], m + 1))
                    } else {
                        None
                    }
                },
            }
        }
    }
}

/// An array of strings whose `[` stands at `i`.
pub open spec fn str_array(s: Seq<u8>, i: int) -> Option<(Seq<Seq<u8>>, int)> {
    if 0 <= i < s.len() && s[i] == LBRACKET {
        let j = skip_ws(s, i + 1);
        if j < s.len() && s[j] == RBRACKET {
            Some((Seq::empty(), j + 1))
        } else {
            str_elems(s, i + 1)
        }
    } else {
        None
    }
}

/// Mirrors `str_elems`.
fn str_elems_x(s: &Vec<u8>, i: usize) -> (r: Option<(Vec<Vec<u8>>, usize)>)
    requires
        i <= s.len(),
    ensures
        match r {
            Some((items, k)) => str_elems(s@, i as int) == Some((views_of(items@), k as int)) && k
                <= s.len(),
            None => str_elems(s@, i as int) is None,
        },
    decreases s.len() - i,
{
    let j = skip_ws_x(s, i);
    if j >= s.len() {
        None
    } else if s[j] != QUOTE {
        None
    } else {
        match str_body_x(s, j + 1) {
            None => None,
            Some((t, e)) => {
                let m = skip_ws_x(s, e);
                if m >= s.len() {
                    None
                } else if s[m] == COMMA {
                    if m >= i {
                        match str_elems_x(s, m + 1) {
                            None => None,
                            Some((rest, k)) => {
                                let ghost rv = rest@;
                                let ghost tv = t@;
                                let mut rest = rest;
                                rest.insert(0, t);
                                assert(views_of(rest@) =~= seq![tv] + views_of(rv));
                                Some((rest, k))
                            },
                        }
                    } else {
                        None
                    }
                } else if s[m] == RBRACKET {
                    let mut items: Vec<Vec<u8>> = Vec::new();
                    let ghost tv = t@;
                    items.push(t);
                    assert(views_of(items@) =~= seq![tv]);
                    Some((items, m + 1))
                } else {
                    None
                }
            },
        }
    }
}

/// Mirrors `str_array`.
pub fn str_array_x(s: &Vec<u8>, i: usize) -> (r: Option<(Vec<Vec<u8>>, usize)>)
    requires
        i <= s.len(),
    ensures
        match r {
            Some((items, k)) => str_array(s@, i as int) == Some((views_of(items@), k as int)) && k
                <= s.len(),
            None => str_array(s@, i as int) is None,
        },
{
    if i < s.len() && s[i] == LBRACKET {
        let j = skip_ws_x(s, i + 1);
        if j < s.len() && s[j] == RBRACKET {
            let items: Vec<Vec<u8>> = Vec::new();
            assert(views_of(items@) =~= Seq::<Seq<u8>>::empty());
            Some((items, j + 1))
        } else {
            str_elems_x(s, i + 1)
        }
    } else {
        None
    }
}

/// The `size` members of an array of layer objects, starting just past `[`
/// or a `,`; at least one element is expected.  Members other than `size`
/// are stepped over.
pub open spec fn layer_elems(s: Seq<u8>, i: int) -> Option<(Seq<u64>, int)>
    decreases s.len() - i,
{
    if i < 0 {
        None
    } else {
        let j = skip_ws(s, i);
        if j >= s.len() || j < i || s[j] != LBRACE {
            None
        } else {
            match obj_find(s, j + 1, key_size()) {
                None => None,
                Some(None) => None,
                Some(Some(v)) => match int_at(s, v) {
                    None => None,
                    Some((n, _)) => match skip_obj(s, j + 1) {
                        None => None,
                        Some(e) => {
                            let m = skip_ws(s, e);
                            if m >= s.len() {
                                None
                            } else if s[m] == COMMA {
                                if m >= i {
                                    match layer_elems(s, m + 1) {
                                        None => None,
                                        Some((rest, k)) => Some((seq![n] + rest, k)),
                                    }
                                } else {
                                    None
                                }
                            } else if s[m] == RBRACKET {
                                Some((seq![n], m + 1))
                            } else {
                                None
                            }
                        },
                    },
                },
            }
        }
    }
}

/// An array of layer objects whose `[` stands at `i`.
pub open spec fn layer_array(s: Seq<u8>, i: int) -> Option<(Seq<u64>, int)> {
    if 0 <= i < s.len() && s[i] == LBRACKET {
        let j = skip_ws(s, i + 1);
        if j < s.len() && s[j] == RBRACKET {
            Some((Seq::empty(), j + 1))
        } else {
            layer_elems(s, i + 1)
        }
    } else {
        None
    }
}

/// Mirrors `layer_elems`.
fn layer_elems_x(s: &Vec<u8>, i: usize) -> (r: Option<(Vec<u64>, usize)>)
    requires
        i <= s.len(),
    ensures
        match r {
            Some((sizes, k)) => layer_elems(s@, i as int) == Some((sizes@, k as int)) && k
                <= s.len(),
            None => layer_elems(s@, i as int) is None,
        },
    decreases s.len() - i,
{
    let j = skip_ws_x(s, i);
    if j >= s.len() {
        None
    } else if s[j] != LBRACE {
        None
    } else {
        let size_key = key_size_x();
        match obj_find_x(s, j + 1, &size_key) {
            None => None,
            Some(None) => None,
            Some(Some(v)) => match int_at_x(s, v) {
                None => None,
                Some((n, _)) => match skip_obj_x(s, j + 1) {
                    None => None,
                    Some(e) => {
                        let m = skip_ws_x(s, e);
                        if m >= s.len() {
                            None
                        } else if s[m] == COMMA {
                            if m >= i {
                                match layer_elems_x(s, m + 1) {
                                    None => None,
                                    Some((rest, k)) => {
                                        let ghost rv = rest@;
                                        let mut rest = rest;
                                        rest.insert(0, n);
                                        assert(rest@ =~= seq![n] + rv);
                                        Some((rest, k))
                                    },
                                }
                            } else {
                                None
                            }
                        } else if s[m] == RBRACKET {
                            let mut sizes: Vec<u64> = Vec::new();
                            sizes.push(n);
                            assert(sizes@ =~= seq![n]);
                            Some((sizes, m + 1))
                        } else {
                            None
                        }
                    },
                },
            },
        }
    }
}

/// Mirrors `layer_array`.
fn layer_array_x(s: &Vec<u8>, i: usize) -> (r: Option<(Vec<u64>, usize)>)
    requires
        i <= s.len(),
    ensures
        match r {
            Some((sizes, k)) => layer_array(s@, i as int) == Some((sizes@, k as int)) && k
                <= s.len(),
            None => layer_array(s@, i as int) is None,
        },
{
    if i < s.len() && s[i] == LBRACKET {
        let j = skip_ws_x(s, i + 1);
        if j < s.len() && s[j] == RBRACKET {
            let sizes: Vec<u64> = Vec::new();
            assert(sizes@ =~= Seq::<u64>::empty());
            Some((sizes, j + 1))
        } else {
            layer_elems_x(s, i + 1)
        }
    } else {
        None
    }
}

/// A catalog or tag-list body: the named field's strings, the empty
/// sequence when the field is absent or null, and nothing when the body is
/// not a well-formed object or the field is of another type.
pub open spec fn string_list_of(s: Seq<u8>, key: Seq<u8>) -> Option<Seq<Seq<u8>>> {
    match doc_obj(s) {
        None => None,
        Some(p) => match obj_find(s, p, key) {
            None => None,
            Some(None) => Some(Seq::empty()),
            Some(Some(v)) => if lit_at(s, v, lit_null()) {
                Some(Seq::empty())
            } else {
                match str_array(s, v) {
                    None => None,
                    Some((items, _)) => Some(items),
                }
            },
        },
    }
}

/// A body whose object carries no list field at all — `{}` being the
/// plainest case — decodes to the empty sequence, not to an error; so does
/// one whose field is null.
pub proof fn lemma_absent_list_empty(s: Seq<u8>, key: Seq<u8>)
    requires
        doc_obj(s) is Some,
        obj_find(s, doc_obj(s)->Some_0, key) == Some(None::<int>) || (obj_find(
            s,
            doc_obj(s)->Some_0,
            key,
        ) matches Some(Some(v)) && lit_at(s, v, lit_null())),
    ensures
        string_list_of(s, key) == Some(Seq::<Seq<u8>>::empty()),
{
}

/// The repository names of a catalog body.
pub open spec fn catalog_of(s: Seq<u8>) -> Option<Seq<Seq<u8>>> {
    string_list_of(s, key_repositories())
}

/// The tags of a tag-list body.
pub open spec fn tags_of(s: Seq<u8>) -> Option<Seq<Seq<u8>>> {
    string_list_of(s, key_tags())
}

fn string_list_x(s: &Vec<u8>, key: &Vec<u8>) -> (r: Result<Vec<Vec<u8>>, DecodeError>)
    ensures
        match r {
            Ok(items) => string_list_of(s@, key@) == Some(views_of(items@)),
            Err(e) => string_list_of(s@, key@) is None && e == DecodeError::Body,
        },
{
    match doc_obj_x(s) {
        None => Err(DecodeError::Body),
        Some(p) => match obj_find_x(s, p, key) {
            None => Err(DecodeError::Body),
            Some(None) => {
                let items: Vec<Vec<u8>> = Vec::new();
                assert(views_of(items@) =~= Seq::<Seq<u8>>::empty());
                Ok(items)
            },
            Some(Some(v)) => if null_at_x(s, v) {
                let items: Vec<Vec<u8>> = Vec::new();
                assert(views_of(items@) =~= Seq::<Seq<u8>>::empty());
                Ok(items)
            } else {
                match str_array_x(s, v) {
                    None => Err(DecodeError::Body),
                    Some((items, _)) => Ok(items),
                }
            },
        },
    }
}

/// Decodes a catalog body into its repository names.
pub fn decode_catalog(s: &Vec<u8>) -> (r: Result<Vec<Vec<u8>>, DecodeError>)
    ensures
        match r {
            Ok(items) => catalog_of(s@) == Some(views_of(items@)),
            Err(e) => catalog_of(s@) is None && e == DecodeError::Body,
        },
{
    let key = key_repositories_x();
    string_list_x(s, &key)
}

/// Decodes a tag-list body into its tags.
pub fn decode_tags(s: &Vec<u8>) -> (r: Result<Vec<Vec<u8>>, DecodeError>)
    ensures
        match r {
            Ok(items) => tags_of(s@) == Some(views_of(items@)),
            Err(e) => tags_of(s@) is None && e == DecodeError::Body,
        },
{
    let key = key_tags_x();
    string_list_x(s, &key)
}

/// The `created` timestamp inside the embedded document of a history
/// manifest's first entry.  The `v1Compatibility` value is itself a JSON
/// document in a string and is decoded in a second stage.
pub open spec fn created_of(s: Seq<u8>) -> Option<Seq<u8>> {
    match doc_obj(s) {
        None => None,
        Some(p) => match obj_find(s, p, key_history()) {
            None => None,
            Some(None) => None,
            Some(Some(v)) => if !(0 <= v < s.len() && s[v] == LBRACKET) {
                None
            } else {
                let j = skip_ws(s, v + 1);
                if !(j < s.len() && s[j] == LBRACE) {
                    None
                } else {
                    match obj_find(s, j + 1, key_v1_compatibility()) {
                        None => None,
                        Some(None) => None,
                        Some(Some(w)) => if !(w < s.len() && s[w] == QUOTE) {
                            None
                        } else {
                            match str_body(s, w + 1) {
                                None => None,
                                Some((inner, _)) => created_of_inner(inner),
                            }
                        },
                    }
                }
            },
        },
    }
}

/// The `created` field of the embedded document.
pub open spec fn created_of_inner(t: Seq<u8>) -> Option<Seq<u8>> {
    match doc_obj(t) {
        None => None,
        Some(p) => match obj_find(t, p, key_created()) {
            None => None,
            Some(None) => None,
            Some(Some(v)) => if !(v < t.len() && t[v] == QUOTE) {
                None
            } else {
                match str_body(t, v + 1) {
                    None => None,
                    Some((c, _)) => Some(c),
                }
            },
        },
    }
}

fn decode_created_inner(t: &Vec<u8>) -> (r: Result<Vec<u8>, DecodeError>)
    ensures
        match r {
            Ok(c) => created_of_inner(t@) == Some(c@),
            Err(e) => created_of_inner(t@) is None && e == DecodeError::Body,
        },
{
    match doc_obj_x(t) {
        None => Err(DecodeError::Body),
        Some(p) => {
            let key = key_created_x();
            match obj_find_x(t, p, &key) {
                None => Err(DecodeError::Body),
                Some(None) => Err(DecodeError::Body),
                Some(Some(v)) => if !(v < t.len() && t[v] == QUOTE) {
                    Err(DecodeError::Body)
                } else {
                    match str_body_x(t, v + 1) {
                        None => Err(DecodeError::Body),
                        Some((c, _)) => Ok(c),
                    }
                },
            }
        },
    }
}

/// Decodes a history-shape manifest body into its first entry's `created`
/// timestamp.
pub fn decode_created(s: &Vec<u8>) -> (r: Result<Vec<u8>, DecodeError>)
    ensures
        match r {
            Ok(c) => created_of(s@) == Some(c@),
            Err(e) => created_of(s@) is None && e == DecodeError::Body,
        },
{
    match doc_obj_x(s) {
        None => Err(DecodeError::Body),
        Some(p) => {
            let key = key_history_x();
            match obj_find_x(s, p, &key) {
                None => Err(DecodeError::Body),
                Some(None) => Err(DecodeError::Body),
                Some(Some(v)) => if !(v < s.len() && s[v] == LBRACKET) {
                    Err(DecodeError::Body)
                } else {
                    let j = skip_ws_x(s, v + 1);
                    if !(j < s.len() && s[j] == LBRACE) {
                        Err(DecodeError::Body)
                    } else {
                        let inner_key = key_v1_compatibility_x();
                        match obj_find_x(s, j + 1, &inner_key) {
                            None => Err(DecodeError::Body),
                            Some(None) => Err(DecodeError::Body),
                            Some(Some(w)) => if !(w < s.len() && s[w] == QUOTE) {
                                Err(DecodeError::Body)
                            } else {
                                match str_body_x(s, w + 1) {
                                    None => Err(DecodeError::Body),
                                    Some((inner, _)) => decode_created_inner(&inner),
                                }
                            },
                        }
                    }
                },
            }
        },
    }
}

/// The content digest and the layer sizes of a v2-shape manifest body.
pub open spec fn v2_of(s: Seq<u8>) -> Option<(Seq<u8>, Seq<u64>)> {
    match doc_obj(s) {
        None => None,
        Some(p) => match obj_find(s, p, key_config()) {
            None => None,
            Some(None) => None,
            Some(Some(c)) => if !(c < s.len() && s[c] == LBRACE) {
                None
            } else {
                match obj_find(s, c + 1, key_digest()) {
                    None => None,
                    Some(None) => None,
                    Some(Some(d)) => if !(d < s.len() && s[d] == QUOTE) {
                        None
                    } else {
                        match str_body(s, d + 1) {
                            None => None,
                            Some((digest, _)) => match obj_find(s, p, key_layers()) {
                                None => None,
                                Some(None) => None,
                                Some(Some(l)) => match layer_array(s, l) {
                                    None => None,
                                    Some((sizes, _)) => Some((digest, sizes)),
                                },
                            },
                        }
                    },
                }
            },
        },
    }
}

/// Decodes a v2-shape manifest body into its content digest and layer
/// sizes.
pub fn decode_v2(s: &Vec<u8>) -> (r: Result<(Vec<u8>, Vec<u64>), DecodeError>)
    ensures
        match r {
            Ok((digest, sizes)) => v2_of(s@) == Some((digest@, sizes@)),
            Err(e) => v2_of(s@) is None && e == DecodeError::Body,
        },
{
    match doc_obj_x(s) {
        None => Err(DecodeError::Body),
        Some(p) => {
            let config_key = key_config_x();
            match obj_find_x(s, p, &config_key) {
                None => Err(DecodeError::Body),
                Some(None) => Err(DecodeError::Body),
                Some(Some(c)) => if !(c < s.len() && s[c] == LBRACE) {
                    Err(DecodeError::Body)
                } else {
                    let digest_key = key_digest_x();
                    match obj_find_x(s, c + 1, &digest_key) {
                        None => Err(DecodeError::Body),
                        Some(None) => Err(DecodeError::Body),
                        Some(Some(d)) => if !(d < s.len() && s[d] == QUOTE) {
                            Err(DecodeError::Body)
                        } else {
                            match str_body_x(s, d + 1) {
                                None => Err(DecodeError::Body),
                                Some((digest, _)) => {
                                    let layers_key = key_layers_x();
                                    match obj_find_x(s, p, &layers_key) {
                                        None => Err(DecodeError::Body),
                                        Some(None) => Err(DecodeError::Body),
                                        Some(Some(l)) => match layer_array_x(s, l) {
                                            None => Err(DecodeError::Body),
                                            Some((sizes, _)) => Ok((digest, sizes)),
                                        },
                                    }
                                },
                            }
                        },
                    }
                },
            }
        },
    }
}

} // verus!
