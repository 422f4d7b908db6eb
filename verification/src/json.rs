//! Read access to JSON provider data: member lookup and dotted-path resolution.

use vstd::prelude::*;

use crate::manifest::split_on;

verus! {

#[verifier::external_type_specification]
#[verifier::external_body]
pub struct ExJsonValue(serde_json::Value);

#[verifier::external_type_specification]
#[verifier::external_body]
#[verifier::reject_recursive_types(K)]
#[verifier::reject_recursive_types(V)]
pub struct ExJsonMap<K, V>(serde_json::Map<K, V>);

/// A JSON object's entries.
pub type JsonMap = serde_json::Map<String, serde_json::Value>;

/// `serde_json::Value::clone` copies the value.
pub assume_specification[ <serde_json::Value as Clone>::clone ](value: &serde_json::Value) -> (res:
    serde_json::Value)
    ensures
        res == *value,
;

/// The members of `value` when it is a JSON object, keyed by name; `None` for every
/// other kind of value.
pub uninterp spec fn json_object_members(value: serde_json::Value) -> Option<
    Map<Seq<char>, serde_json::Value>,
>;

/// The entries a `serde_json::Map` holds, keyed by name.
pub uninterp spec fn json_map_entries(map: serde_json::Map<String, serde_json::Value>) -> Map<
    Seq<char>,
    serde_json::Value,
>;

/// Whether `serde_json`'s `==` holds between two values.
pub uninterp spec fn json_equal(a: serde_json::Value, b: serde_json::Value) -> bool;

/// The member `key` of `value`, as `Value::get` with a string index finds it: only an
/// object has members.
pub open spec fn json_member(value: serde_json::Value, key: Seq<char>) -> Option<serde_json::Value> {
    match json_object_members(value) {
        Some(members) => if members.contains_key(key) {
            Some(members[key])
        } else {
            None
        },
        None => None,
    }
}

/// Looks up the member `key` with `serde_json::Value::get`.
#[verifier::external_body]
pub(crate) fn json_get<'a>(value: &'a serde_json::Value, key: &str) -> (res: Option<&'a serde_json::Value>)
    ensures
        res is Some <==> json_member(*value, key@) is Some,
        res matches Some(member) ==> json_member(*value, key@) == Some(*member),
{
    value.get(key)
}

/// Compares two values with `serde_json`'s `==`, which holds at least of equal values.
#[verifier::external_body]
pub(crate) fn json_eq(a: &serde_json::Value, b: &serde_json::Value) -> (res: bool)
    ensures
        res == json_equal(*a, *b),
        *a == *b ==> res,
{
    a == b
}

/// An empty map, from `serde_json::Map::new`.
#[verifier::external_body]
pub(crate) fn json_map_new() -> (res: JsonMap)
    ensures
        json_map_entries(res).dom().is_empty(),
{
    serde_json::Map::new()
}

/// Inserts an entry with `serde_json::Map::insert`, replacing any entry of that name.
#[verifier::external_body]
pub(crate) fn json_map_insert(
    map: &mut JsonMap,
    key: String,
    value: serde_json::Value,
)
    ensures
        json_map_entries(*final(map)) == json_map_entries(*old(map)).insert(key@, value),
{
    map.insert(key, value);
}

/// Wraps a map as `serde_json::Value::Object`.
#[verifier::external_body]
pub(crate) fn json_object(map: JsonMap) -> (res: serde_json::Value)
    ensures
        json_object_members(res) == Some(json_map_entries(map)),
{
    serde_json::Value::Object(map)
}

/// Follows `segments` from `root`, one member lookup per segment.
pub open spec fn resolve_segments(root: serde_json::Value, segments: Seq<Seq<char>>) -> Option<
    serde_json::Value,
>
    decreases segments.len(),
{
    if segments.len() == 0 {
        Some(root)
    } else {
        match resolve_segments(root, segments.drop_last()) {
            Some(value) => json_member(value, segments.last()),
            None => None,
        }
    }
}

/// Resolves a dotted path without evaluating arbitrary expressions: every `.`-separated
/// segment, empty ones included, is one member lookup.
pub fn resolve_path<'a>(root: &'a serde_json::Value, path: &str) -> (res: Option<&'a serde_json::Value>)
    ensures
        res is Some <==> resolve_segments(*root, split_on(path@, '.')) is Some,
        res matches Some(found) ==> resolve_segments(*root, split_on(path@, '.')) == Some(*found),
{
    let ghost s = path@;
    let mut current: &'a serde_json::Value = root;
    let mut segment = String::new();
    proof {
        assert(s.take(0) =~= Seq::<char>::empty());
        assert(split_on(s.take(0), '.').drop_last() =~= Seq::<Seq<char>>::empty());
    }
    for c in it: path.chars()
        invariant
            it.seq() == s,
            s == path@,
            split_on(s.take(it.index() as int), '.').len() >= 1,
            segment@ == split_on(s.take(it.index() as int), '.').last(),
            resolve_segments(*root, split_on(s.take(it.index() as int), '.').drop_last())
                == Some(*current),
    {
        let ghost i = it.index() as int;
        let ghost prev = split_on(s.take(i), '.');
        proof {
            let next_text = s.take(i + 1);
            assert(next_text.drop_last() =~= s.take(i));
            assert(next_text.last() == c);
        }
        if c == '.' {
            proof {
                let next = split_on(s.take(i + 1), '.');
                assert(next == prev.push(Seq::<char>::empty()));
                assert(next.drop_last() =~= prev);
                assert(prev =~= prev.drop_last().push(prev.last()));
            }
            match json_get(current, segment.as_str()) {
                Some(value) => {
                    current = value;
                },
                None => {
                    proof {
                        assert(prev.len() >= 1);
                        assert(resolve_segments(*root, prev) is None);
                        lemma_resolve_none_extends(*root, prev, split_on(s, '.'), s, i);
                        assert(resolve_segments(*root, split_on(s, '.')) is None);
                    }
                    return None;
                },
            }
            segment = String::new();
        } else {
            proof {
                let next = split_on(s.take(i + 1), '.');
                assert(next == prev.update(prev.len() - 1, prev.last().push(c)));
                assert(next.drop_last() =~= prev.drop_last());
            }
            crate::text::push_char(&mut segment, c);
        }
    }
    proof {
        assert(s.take(s.len() as int) =~= s);
        let segs = split_on(s, '.');
        assert(segs =~= segs.drop_last().push(segs.last()));
    }
    json_get(current, segment.as_str())
}

/// Once a lookup along a prefix of the segments fails, resolving the whole path fails.
proof fn lemma_resolve_none_extends(
    root: serde_json::Value,
    prefix: Seq<Seq<char>>,
    whole: Seq<Seq<char>>,
    text: Seq<char>,
    at: int,
)
    requires
        0 <= at < text.len(),
        text[at] == '.',
        prefix == split_on(text.take(at), '.'),
        whole == split_on(text, '.'),
        resolve_segments(root, prefix) is None,
    ensures
        resolve_segments(root, whole) is None,
    decreases text.len() - at,
{
    lemma_split_prefix(text, at + 1);
    let next = split_on(text.take(at + 1), '.');
    assert(text.take(at + 1).drop_last() =~= text.take(at));
    assert(next == prefix.push(Seq::<char>::empty()));
    assert(next.drop_last() =~= prefix);
    lemma_resolve_prefix_none(root, next.drop_last(), whole);
}

/// The pieces of a prefix of `text` that ends at a separator are, but for the last,
/// pieces of `text` itself.
proof fn lemma_split_prefix(text: Seq<char>, n: int)
    requires
        0 <= n <= text.len(),
    ensures
        split_on(text.take(n), '.').drop_last().len() <= split_on(text, '.').len(),
        split_on(text, '.').take(split_on(text.take(n), '.').drop_last().len() as int)
            == split_on(text.take(n), '.').drop_last(),
    decreases text.len() - n,
{
    crate::manifest::lemma_split_nonempty(text.take(n), '.');
    if n == text.len() {
        assert(text.take(n) =~= text);
    } else {
        lemma_split_prefix(text, n + 1);
        let a = split_on(text.take(n), '.');
        let b = split_on(text.take(n + 1), '.');
        assert(text.take(n + 1).drop_last() =~= text.take(n));
        crate::manifest::lemma_split_nonempty(text.take(n + 1), '.');
        if text[n] == '.' {
            assert(b == a.push(Seq::<char>::empty()));
            assert(b.drop_last() == a);
            assert(a.drop_last() =~= a.take(a.len() - 1));
            assert(a.drop_last() =~= b.drop_last().take(a.len() - 1));
        } else {
            assert(b == a.update(a.len() - 1, a.last().push(text[n])));
            assert(b.drop_last() =~= a.drop_last());
        }
        let whole = split_on(text, '.');
        assert(whole.take(a.drop_last().len() as int) =~= whole.take(
            b.drop_last().len() as int,
        ).take(a.drop_last().len() as int));
    }
}

/// Resolving fails along any extension of a prefix along which it fails.
proof fn lemma_resolve_prefix_none(
    root: serde_json::Value,
    prefix: Seq<Seq<char>>,
    whole: Seq<Seq<char>>,
)
    requires
        prefix.len() <= whole.len(),
        whole.take(prefix.len() as int) == prefix,
        resolve_segments(root, prefix) is None,
    ensures
        resolve_segments(root, whole) is None,
    decreases whole.len(),
{
    if whole.len() > prefix.len() {
        assert(whole.drop_last().take(prefix.len() as int) =~= whole.take(prefix.len() as int));
        lemma_resolve_prefix_none(root, prefix, whole.drop_last());
    } else {
        assert(whole =~= whole.take(prefix.len() as int));
    }
}

/// A piece free of separators, appended after a separator, becomes one more piece.
proof fn lemma_split_append_piece(prefix: Seq<char>, piece: Seq<char>, sep: char)
    requires
        !piece.contains(sep),
    ensures
        split_on(prefix + seq![sep] + piece, sep) == split_on(prefix, sep).push(piece),
    decreases piece.len(),
{
    let text = prefix + seq![sep] + piece;
    if piece.len() == 0 {
        assert(text.drop_last() =~= prefix);
        assert(piece =~= Seq::<char>::empty());
    } else {
        let shorter = piece.drop_last();
        assert(!shorter.contains(sep)) by {
            if shorter.contains(sep) {
                let k = choose|k: int| 0 <= k < shorter.len() && shorter[k] == sep;
                assert(piece[k] == sep);
            }
        }
        lemma_split_append_piece(prefix, shorter, sep);
        assert(text.drop_last() =~= prefix + seq![sep] + shorter);
        assert(text.last() == piece.last());
        assert(piece.last() != sep) by {
            assert(piece[piece.len() - 1] == piece.last());
        }
        assert(shorter.push(piece.last()) =~= piece);
        assert(split_on(text, sep) =~= split_on(prefix, sep).push(piece));
    }
}

/// Text free of separators is a single piece.
proof fn lemma_split_single_piece(piece: Seq<char>, sep: char)
    requires
        !piece.contains(sep),
    ensures
        split_on(piece, sep) == seq![piece],
    decreases piece.len(),
{
    if piece.len() == 0 {
        assert(piece =~= Seq::<char>::empty());
    } else {
        let shorter = piece.drop_last();
        assert(!shorter.contains(sep)) by {
            if shorter.contains(sep) {
                let k = choose|k: int| 0 <= k < shorter.len() && shorter[k] == sep;
                assert(piece[k] == sep);
            }
        }
        lemma_split_single_piece(shorter, sep);
        assert(piece.last() != sep) by {
            assert(piece[piece.len() - 1] == piece.last());
        }
        assert(shorter.push(piece.last()) =~= piece);
        assert(split_on(piece, sep) =~= seq![piece]);
    }
}

/// Paths compose: for a segment free of `.`, resolving `path.segment` looks the segment
/// up, as a member, in what `path` resolves to, and fails where `path` fails; a path of
/// one segment is one member lookup in the root. A segment never indexes an array or
/// evaluates anything: [`json_member`] finds members of objects only.
pub proof fn lemma_resolve_path_composes(
    root: serde_json::Value,
    path: Seq<char>,
    segment: Seq<char>,
)
    requires
        !segment.contains('.'),
    ensures
        resolve_segments(root, split_on(path + seq!['.'] + segment, '.')) == match resolve_segments(
            root,
            split_on(path, '.'),
        ) {
            Some(value) => json_member(value, segment),
            None => None,
        },
        resolve_segments(root, split_on(segment, '.')) == json_member(root, segment),
{
    lemma_split_append_piece(path, segment, '.');
    let longer = split_on(path, '.').push(segment);
    assert(longer.drop_last() =~= split_on(path, '.'));
    lemma_split_single_piece(segment, '.');
    let single = seq![segment];
    assert(single.drop_last() =~= Seq::<Seq<char>>::empty());
    assert(resolve_segments(root, single.drop_last()) == Some(root));
    assert(single.last() == segment);
}

} // verus!
