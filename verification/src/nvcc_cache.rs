//! Content-based object reuse using NVCC's own complete dependency list.
//! A missing/invalid dependency list always falls back to compilation.

use crate::text::{
    chars_of, code_point, find, first_index, hex, is_white_space, lemma_hex_injective,
    lemma_hex_len, pieces, push_hex, slice, split, text_of, texts, white_space,
};
use vstd::prelude::*;

verus! {

/// The offset basis of the 128-bit FNV-1a hash.
pub const FNV_BASIS: u128 = 0x6c62272e07bb014262b821756295c58d;

/// The prime of the 128-bit FNV-1a hash.
pub const FNV_PRIME: u128 = 0x0000000001000000000000000000013b;

/// The 128-bit FNV-1a hash of some bytes.
pub open spec fn fnv(bytes: Seq<u8>) -> u128
    decreases bytes.len(),
{
    if bytes.len() == 0 {
        FNV_BASIS
    } else {
        (fnv(bytes.drop_last()) ^ (bytes.last() as u128)).wrapping_mul(FNV_PRIME)
    }
}

pub fn hash(bytes: &[u8]) -> (value: u128)
    ensures
        value == fnv(bytes@),
{
    let mut value: u128 = FNV_BASIS;
    let mut i: usize = 0;
    assert(bytes@.take(0) =~= Seq::<u8>::empty());
    while i < bytes.len()
        invariant
            i <= bytes@.len(),
            value == fnv(bytes@.take(i as int)),
        decreases bytes.len() - i,
    {
        assert(bytes@.take(i + 1).drop_last() =~= bytes@.take(i as int));
        value = (value ^ (bytes[i] as u128)).wrapping_mul(FNV_PRIME);
        i = i + 1;
    }
    assert(bytes@.take(i as int) =~= bytes@);
    value
}

/// The prime is odd, so that a multiplication by it loses nothing.
proof fn lemma_fnv_product_is_injective(x: u128, y: u128)
    requires
        x.wrapping_mul(FNV_PRIME) == y.wrapping_mul(FNV_PRIME),
    ensures
        x == y,
{
    lemma_fnv_product_is_undone(x);
    lemma_fnv_product_is_undone(y);
}

/// The inverse of the prime, modulo two to the power of 128.
spec fn fnv_inverse() -> int {
    0xb1041ad2562ff2ff2ff2ff2ff2ff2ff3
}

proof fn lemma_fnv_product_is_undone(x: u128)
    ensures
        (x.wrapping_mul(FNV_PRIME) * fnv_inverse()) % 0x1_0000_0000_0000_0000_0000_0000_0000_0000int
            == x,
{
    let m: int = 0x1_0000_0000_0000_0000_0000_0000_0000_0000int;
    let p: int = 0x0000000001000000000000000000013b;
    let q: int = 0xb1041ad2562ff2ff2ff2ff2ff2ff2ff3;
    let carry: int = 213999254309421075624096729;
    assert(p * q == m * carry + 1);
    let n = x as int;
    vstd::arithmetic::div_mod::lemma_mul_mod_noop_left(n * p, q, m);
    assert(n * p * q == m * (n * carry) + n) by (nonlinear_arith)
        requires
            p * q == m * carry + 1,
    ;
    vstd::arithmetic::div_mod::lemma_mod_multiples_vanish(n * carry, n, m);
    vstd::arithmetic::div_mod::lemma_small_mod(x as nat, m as nat);
}

/// A change of one byte is always visible in the hash.
pub proof fn lemma_changed_byte_is_visible(bytes: Seq<u8>, index: int, byte: u8)
    requires
        0 <= index < bytes.len(),
        byte != bytes[index],
    ensures
        fnv(bytes.update(index, byte)) != fnv(bytes),
    decreases bytes.len(),
{
    let changed = bytes.update(index, byte);
    let before = fnv(bytes.drop_last());
    let after = fnv(changed.drop_last());
    let x = bytes.last() as u128;
    let y = changed.last() as u128;
    if index == bytes.len() - 1 {
        assert(changed.drop_last() =~= bytes.drop_last());
        assert(before ^ x != before ^ y) by (bit_vector)
            requires
                x != y,
        ;
    } else {
        assert(changed.drop_last() =~= bytes.drop_last().update(index, byte));
        lemma_changed_byte_is_visible(bytes.drop_last(), index, byte);
        assert(before ^ x != after ^ x) by (bit_vector)
            requires
                before != after,
        ;
    }
    if fnv(changed) == fnv(bytes) {
        lemma_fnv_product_is_injective(after ^ y, before ^ x);
    }
}

/// Reading words in Make's escaping: the words that are complete, the word that
/// is being read, and whether a backslash was read last.
pub open spec fn scan(s: Seq<char>) -> (Seq<Seq<char>>, Seq<char>, bool)
    decreases s.len(),
{
    if s.len() == 0 {
        (Seq::empty(), Seq::empty(), false)
    } else {
        let (words, word, escaped) = scan(s.drop_last());
        let c = s.last();
        if escaped {
            if c == '\n' {
                (words, word, false)
            } else {
                (words, word.push(c), false)
            }
        } else if c == '\\' {
            (words, word, true)
        } else if white_space(c) {
            if word.len() == 0 {
                (words, word, false)
            } else {
                (words.push(word), Seq::empty(), false)
            }
        } else {
            (words, word.push(c), false)
        }
    }
}

/// The words behind the first colon; none where there is no colon, or where
/// the text ends in a backslash.
pub open spec fn listed_words(text: Seq<char>) -> Option<Seq<Seq<char>>> {
    let at = first_index(text, ':');
    if at == text.len() {
        None
    } else {
        let (words, word, escaped) = scan(text.skip(at + 1));
        if escaped {
            None
        } else if word.len() == 0 {
            Some(words)
        } else {
            Some(words.push(word))
        }
    }
}

/// Words as numbers: the code points of a name behind a mark that says which
/// sort of path component it is.
pub open spec fn component(piece: Seq<char>, index: int) -> Option<Seq<u32>> {
    if piece.len() == 0 {
        None
    } else if piece =~= seq!['.'] {
        if index == 0 {
            Some(seq![2u32])
        } else {
            None
        }
    } else if piece =~= seq!['.', '.'] {
        Some(seq![3u32])
    } else {
        Some(seq![4u32] + piece.map_values(|c: char| c as u32))
    }
}

/// The components of the first `count` pieces between slashes.
pub open spec fn piece_components(list: Seq<Seq<char>>, count: int) -> Seq<Seq<u32>>
    decreases count,
{
    if count <= 0 {
        Seq::empty()
    } else {
        match component(list[count - 1], count - 1) {
            Some(found) => piece_components(list, count - 1).push(found),
            None => piece_components(list, count - 1),
        }
    }
}

/// A path by its components: the root, a leading `.`, `..`, and names.
/// Repeated slashes, further `.` and a trailing slash do not count.
pub open spec fn components(path: Seq<char>) -> Seq<Seq<u32>> {
    let list = pieces(path, '/');
    (if path.len() > 0 && path[0] == '/' {
        seq![seq![1u32]]
    } else {
        Seq::empty()
    }) + piece_components(list, list.len() as int)
}

/// Lexicographic order of two words: negative, zero or positive.
pub open spec fn word_order(a: Seq<u32>, b: Seq<u32>) -> int
    decreases a.len(),
{
    if a.len() == 0 && b.len() == 0 {
        0
    } else if a.len() == 0 {
        -1
    } else if b.len() == 0 {
        1
    } else if a[0] < b[0] {
        -1
    } else if a[0] > b[0] {
        1
    } else {
        word_order(a.skip(1), b.skip(1))
    }
}

/// Lexicographic order of two paths by their components.
pub open spec fn path_order(a: Seq<Seq<u32>>, b: Seq<Seq<u32>>) -> int
    decreases a.len(),
{
    if a.len() == 0 && b.len() == 0 {
        0
    } else if a.len() == 0 {
        -1
    } else if b.len() == 0 {
        1
    } else if word_order(a[0], b[0]) != 0 {
        word_order(a[0], b[0])
    } else {
        path_order(a.skip(1), b.skip(1))
    }
}

proof fn lemma_word_order(a: Seq<u32>, b: Seq<u32>, c: Seq<u32>)
    ensures
        word_order(a, b) == -word_order(b, a),
        word_order(a, b) == 0 ==> a == b,
        -1 <= word_order(a, b) <= 1,
        word_order(a, b) < 0 && word_order(b, c) < 0 ==> word_order(a, c) < 0,
        a == b ==> word_order(a, b) == 0,
    decreases a.len(),
{
    if a.len() > 0 && b.len() > 0 {
        let rest_c = if c.len() > 0 {
            c.skip(1)
        } else {
            c
        };
        lemma_word_order(a.skip(1), b.skip(1), rest_c);
        if word_order(a, b) == 0 {
            assert(a =~= seq![a[0]] + a.skip(1));
            assert(b =~= seq![b[0]] + b.skip(1));
        }
    } else if a.len() == 0 && b.len() == 0 {
        assert(a =~= b);
    }
}

proof fn lemma_path_order(a: Seq<Seq<u32>>, b: Seq<Seq<u32>>, c: Seq<Seq<u32>>)
    ensures
        path_order(a, b) == -path_order(b, a),
        path_order(a, b) == 0 ==> a == b,
        -1 <= path_order(a, b) <= 1,
        path_order(a, b) < 0 && path_order(b, c) < 0 ==> path_order(a, c) < 0,
        a == b ==> path_order(a, b) == 0,
    decreases a.len(),
{
    if a.len() > 0 && b.len() > 0 {
        let rest_c = if c.len() > 0 {
            c.skip(1)
        } else {
            c
        };
        let first_c = if c.len() > 0 {
            c[0]
        } else {
            a[0]
        };
        lemma_word_order(a[0], b[0], first_c);
        lemma_word_order(b[0], first_c, first_c);
        lemma_word_order(a[0], first_c, first_c);
        lemma_path_order(a.skip(1), b.skip(1), rest_c);
        if path_order(a, b) == 0 {
            assert(a =~= seq![a[0]] + a.skip(1));
            assert(b =~= seq![b[0]] + b.skip(1));
        }
    } else if a.len() == 0 && b.len() == 0 {
        assert(a =~= b);
    }
}

/// The words of a list of words.
pub open spec fn words_of(list: Seq<Vec<u32>>) -> Seq<Seq<u32>> {
    list.map_values(|word: Vec<u32>| word@)
}

fn order_words(a: &Vec<u32>, b: &Vec<u32>) -> (order: i8)
    ensures
        order == word_order(a@, b@),
{
    let mut i: usize = 0;
    assert(a@.skip(0) =~= a@ && b@.skip(0) =~= b@);
    while i < a.len() && i < b.len()
        invariant
            i <= a.len(),
            i <= b.len(),
            word_order(a@, b@) == word_order(a@.skip(i as int), b@.skip(i as int)),
        decreases a.len() - i,
    {
        assert(a@.skip(i as int).skip(1) =~= a@.skip(i + 1));
        assert(b@.skip(i as int).skip(1) =~= b@.skip(i + 1));
        if a[i] < b[i] {
            return -1;
        }
        if a[i] > b[i] {
            return 1;
        }
        i = i + 1;
    }
    if i < b.len() {
        -1
    } else if i < a.len() {
        1
    } else {
        0
    }
}

fn order_paths(a: &Vec<Vec<u32>>, b: &Vec<Vec<u32>>) -> (order: i8)
    ensures
        order == path_order(words_of(a@), words_of(b@)),
{
    let mut i: usize = 0;
    let ghost x = words_of(a@);
    let ghost y = words_of(b@);
    assert(x.skip(0) =~= x && y.skip(0) =~= y);
    while i < a.len() && i < b.len()
        invariant
            i <= a.len(),
            i <= b.len(),
            x == words_of(a@),
            y == words_of(b@),
            path_order(x, y) == path_order(x.skip(i as int), y.skip(i as int)),
        decreases a.len() - i,
    {
        assert(x.skip(i as int).skip(1) =~= x.skip(i + 1));
        assert(y.skip(i as int).skip(1) =~= y.skip(i + 1));
        assert(x.skip(i as int)[0] == a@[i as int]@);
        assert(y.skip(i as int)[0] == b@[i as int]@);
        let order: i8 = order_words(&a[i], &b[i]);
        if order != 0 {
            return order;
        }
        i = i + 1;
    }
    if i < b.len() {
        -1
    } else if i < a.len() {
        1
    } else {
        0
    }
}

fn component_of(piece: &Vec<char>, index: usize) -> (result: Option<Vec<u32>>)
    ensures
        match result {
            Some(word) => component(piece@, index as int) == Some(word@),
            None => component(piece@, index as int) is None,
        },
{
    if piece.len() == 0 {
        return None;
    }
    let dot = piece.len() == 1 && piece[0] == '.';
    assert(dot == (piece@ =~= seq!['.']));
    if dot {
        if index == 0 {
            let word: Vec<u32> = vec![2];
            assert(word@ =~= seq![2u32]);
            return Some(word);
        }
        return None;
    }
    let dots = piece.len() == 2 && piece[0] == '.' && piece[1] == '.';
    assert(dots == (piece@ =~= seq!['.', '.']));
    if dots {
        let word: Vec<u32> = vec![3];
        assert(word@ =~= seq![3u32]);
        return Some(word);
    }
    let mut word: Vec<u32> = vec![4];
    let mut i: usize = 0;
    assert(word@ =~= seq![4u32] + piece@.take(0).map_values(|c: char| c as u32));
    while i < piece.len()
        invariant
            i <= piece.len(),
            word@ == seq![4u32] + piece@.take(i as int).map_values(|c: char| c as u32),
        decreases piece.len() - i,
    {
        word.push(code_point(piece[i]));
        i = i + 1;
        assert(word@ =~= seq![4u32] + piece@.take(i as int).map_values(|c: char| c as u32));
    }
    assert(piece@.take(i as int) =~= piece@);
    Some(word)
}

fn components_of(path: &Vec<char>) -> (result: Vec<Vec<u32>>)
    ensures
        words_of(result@) == components(path@),
{
    let list = split(path, '/');
    let ghost all = pieces(path@, '/');
    assert(texts(list@) == all);
    assert(all.len() == list@.len());
    let mut result: Vec<Vec<u32>> = Vec::new();
    let ghost prefix: Seq<Seq<u32>> = if path@.len() > 0 && path@[0] == '/' {
        seq![seq![1u32]]
    } else {
        Seq::empty()
    };
    if path.len() > 0 && path[0] == '/' {
        let root: Vec<u32> = vec![1];
        assert(root@ =~= seq![1u32]);
        result.push(root);
    }
    assert(words_of(result@) =~= prefix + piece_components(all, 0));
    let mut i: usize = 0;
    while i < list.len()
        invariant
            i <= list.len(),
            texts(list@) == all,
            all.len() == list@.len(),
            words_of(result@) == prefix + piece_components(all, i as int),
        decreases list.len() - i,
    {
        assert(texts(list@)[i as int] == list@[i as int]@);
        let ghost before = words_of(result@);
        match component_of(&list[i], i) {
            Some(word) => {
                let ghost found = word@;
                result.push(word);
                assert(words_of(result@) =~= before.push(found));
                assert(words_of(result@) =~= prefix + piece_components(all, i + 1));
            },
            None => {},
        }
        i = i + 1;
    }
    result
}

/// A path with its components.
struct Dependency {
    path: Vec<char>,
    parts: Vec<Vec<u32>>,
}

spec fn paths_of(list: Seq<Dependency>) -> Seq<Seq<char>> {
    list.map_values(|dependency: Dependency| dependency.path@)
}

/// What is true of the sorted paths of some words: they stand in strict order,
/// each is the first of the words with its components, and no word's
/// components are missing.
pub open spec fn sorted_paths(words: Seq<Seq<char>>, paths: Seq<Seq<char>>) -> bool {
    &&& forall|i: int, j: int|
        0 <= i < j < paths.len() ==> path_order(
            components(#[trigger] paths[i]),
            components(#[trigger] paths[j]),
        ) < 0
    &&& forall|i: int|
        0 <= i < paths.len() ==> is_first(words, #[trigger] paths[i])
    &&& forall|k: int|
        0 <= k < words.len() ==> has_path(paths, components(#[trigger] words[k]))
}

/// Whether `path` is a word, and the first with its components.
pub open spec fn is_first(words: Seq<Seq<char>>, path: Seq<char>) -> bool {
    exists|k: int|
        0 <= k < words.len() && #[trigger] words[k] == path && forall|l: int|
            0 <= l < k ==> components(#[trigger] words[l]) != components(path)
}

/// Whether some path has the given components.
pub open spec fn has_path(paths: Seq<Seq<char>>, parts: Seq<Seq<u32>>) -> bool {
    exists|i: int| 0 <= i < paths.len() && components(#[trigger] paths[i]) == parts
}

proof fn lemma_first_stays(words: Seq<Seq<char>>, word: Seq<char>, path: Seq<char>)
    requires
        is_first(words, path),
    ensures
        is_first(words.push(word), path),
{
    let k = choose|k: int|
        0 <= k < words.len() && #[trigger] words[k] == path && forall|l: int|
            0 <= l < k ==> components(#[trigger] words[l]) != components(path);
    assert(words.push(word)[k] == path);
    assert forall|l: int| 0 <= l < k implies components(#[trigger] words.push(word)[l])
        != components(path) by {
        assert(words.push(word)[l] == words[l]);
    }
}

proof fn lemma_insert_sorted(
    words: Seq<Seq<char>>,
    old_paths: Seq<Seq<char>>,
    new_path: Seq<char>,
    p: int,
)
    requires
        sorted_paths(words, old_paths),
        0 <= p <= old_paths.len(),
        forall|i: int|
            0 <= i < p ==> path_order(components(#[trigger] old_paths[i]), components(new_path))
                < 0,
        p < old_paths.len() ==> path_order(components(old_paths[p]), components(new_path)) > 0,
    ensures
        sorted_paths(words.push(new_path), old_paths.insert(p, new_path)),
{
    let key = components(new_path);
    let grown = words.push(new_path);
    let paths = old_paths.insert(p, new_path);
    // Everything from the place on is greater than the word.
    assert forall|i: int| p <= i < old_paths.len() implies path_order(
        key,
        components(#[trigger] old_paths[i]),
    ) < 0 by {
        lemma_path_order(components(old_paths[p]), key, key);
        if i > p {
            lemma_path_order(key, components(old_paths[p]), components(old_paths[i]));
        }
    }
    assert forall|i: int, j: int| 0 <= i < j < paths.len() implies path_order(
        components(#[trigger] paths[i]),
        components(#[trigger] paths[j]),
    ) < 0 by {
        let a = if i < p {
            i
        } else {
            i - 1
        };
        let b = if j < p {
            j
        } else {
            j - 1
        };
        if i == p {
            assert(paths[i] == new_path);
            assert(paths[j] == old_paths[b]);
        } else if j == p {
            assert(paths[j] == new_path);
            assert(paths[i] == old_paths[a]);
        } else {
            assert(paths[i] == old_paths[a]);
            assert(paths[j] == old_paths[b]);
        }
    }
    // No earlier word has the new word's components.
    assert forall|l: int| 0 <= l < words.len() implies components(#[trigger] words[l])
        != key by {
        if components(words[l]) == key {
            assert(has_path(old_paths, key));
            let i = choose|i: int|
                0 <= i < old_paths.len() && components(#[trigger] old_paths[i]) == key;
            lemma_path_order(key, key, key);
            if i < p {
                assert(path_order(components(old_paths[i]), key) < 0);
            } else {
                assert(path_order(key, components(old_paths[i])) < 0);
            }
        }
    }
    assert(grown[words.len() as int] == new_path);
    assert(is_first(grown, new_path)) by {
        assert forall|l: int| 0 <= l < words.len() implies components(#[trigger] grown[l])
            != components(new_path) by {
            assert(grown[l] == words[l]);
        }
    }
    assert forall|i: int| 0 <= i < paths.len() implies is_first(grown, #[trigger] paths[i]) by {
        if i < p {
            assert(paths[i] == old_paths[i]);
            lemma_first_stays(words, new_path, old_paths[i]);
        } else if i > p {
            assert(paths[i] == old_paths[i - 1]);
            lemma_first_stays(words, new_path, old_paths[i - 1]);
        }
    }
    assert forall|k: int| 0 <= k < grown.len() implies has_path(
        paths,
        components(#[trigger] grown[k]),
    ) by {
        if k < words.len() {
            assert(grown[k] == words[k]);
            let i = choose|i: int|
                0 <= i < old_paths.len() && components(#[trigger] old_paths[i]) == components(
                    words[k],
                );
            if i < p {
                assert(paths[i] == old_paths[i]);
            } else {
                assert(paths[i + 1] == old_paths[i]);
            }
        } else {
            assert(paths[p] == new_path);
        }
    }
}

/// Insert one word into the sorted paths of the words before it.
fn insert_sorted(list: &mut Vec<Dependency>, path: Vec<char>, Ghost(words): Ghost<Seq<Seq<char>>>)
    requires
        sorted_paths(words, paths_of(old(list)@)),
        forall|i: int|
            0 <= i < old(list)@.len() ==> words_of((#[trigger] old(list)@[i]).parts@)
                == components(old(list)@[i].path@),
    ensures
        sorted_paths(words.push(path@), paths_of(final(list)@)),
        forall|i: int|
            0 <= i < final(list)@.len() ==> words_of((#[trigger] final(list)@[i]).parts@)
                == components(final(list)@[i].path@),
        final(list)@.len() >= 1,
{
    let parts = components_of(&path);
    let ghost before = list@;
    let ghost old_paths = paths_of(before);
    let ghost key = components(path@);
    let ghost grown = words.push(path@);
    let mut p: usize = 0;
    while p < list.len() && order_paths(&list[p].parts, &parts) < 0
        invariant
            p <= list.len(),
            list@ == before,
            old_paths == paths_of(before),
            words_of(parts@) == key,
            forall|i: int|
                0 <= i < before.len() ==> words_of((#[trigger] before[i]).parts@) == components(
                    before[i].path@,
                ),
            forall|i: int|
                0 <= i < p ==> path_order(components(#[trigger] old_paths[i]), key) < 0,
        ensures
            p <= list.len(),
            list@ == before,
            forall|i: int|
                0 <= i < p ==> path_order(components(#[trigger] old_paths[i]), key) < 0,
            p < before.len() ==> path_order(components(old_paths[p as int]), key) >= 0,
        decreases list.len() - p,
    {
        p = p + 1;
    }
    if p < list.len() && order_paths(&list[p].parts, &parts) == 0 {
        proof {
            lemma_path_order(components(old_paths[p as int]), key, key);
            assert(has_path(old_paths, key));
            assert forall|i: int| 0 <= i < old_paths.len() implies is_first(
                grown,
                #[trigger] old_paths[i],
            ) by {
                lemma_first_stays(words, path@, old_paths[i]);
            }
            assert forall|k: int| 0 <= k < grown.len() implies has_path(
                old_paths,
                components(#[trigger] grown[k]),
            ) by {
                if k < words.len() {
                    assert(grown[k] == words[k]);
                }
            }
        }
        return ;
    }
    let ghost new_path = path@;
    list.insert(p, Dependency { path, parts });
    proof {
        assert(paths_of(list@) =~= old_paths.insert(p as int, new_path));
        assert forall|i: int| 0 <= i < list@.len() implies words_of(
            (#[trigger] list@[i]).parts@,
        ) == components(list@[i].path@) by {
            if i < p {
                assert(list@[i] == before[i]);
            } else if i > p {
                assert(list@[i] == before[i - 1]);
            }
        }
        lemma_insert_sorted(words, old_paths, new_path, p as int);
    }
}

/// The texts of a list of strings.
pub open spec fn strings(list: Seq<String>) -> Seq<Seq<char>> {
    list.map_values(|text: String| text@)
}

/// Parse Make escaping, including spaces and backslash-newline continuations.
pub fn dependencies(text: &str) -> (result: Option<Vec<String>>)
    ensures
        match listed_words(text@) {
            None => result is None,
            Some(words) => if words.len() == 0 {
                result is None
            } else {
                result matches Some(paths) && sorted_paths(
                    words,
                    strings(paths@),
                )
            },
        },
{
    let chars = chars_of(text);
    let at: usize = find(&chars, ':');
    if at == chars.len() {
        return None;
    }
    let body = slice(&chars, at + 1, chars.len());
    assert(body@ =~= text@.skip(at + 1));
    let mut list: Vec<Dependency> = Vec::new();
    let mut word: Vec<char> = Vec::new();
    let mut escaped = false;
    let ghost mut words: Seq<Seq<char>> = Seq::empty();
    let mut i: usize = 0;
    assert(body@.take(0) =~= Seq::<char>::empty());
    assert(paths_of(list@) =~= Seq::<Seq<char>>::empty());
    while i < body.len()
        invariant
            i <= body.len(),
            scan(body@.take(i as int)) == (words, word@, escaped),
            sorted_paths(words, paths_of(list@)),
            words.len() > 0 ==> list@.len() > 0,
            forall|j: int|
                0 <= j < list@.len() ==> words_of((#[trigger] list@[j]).parts@) == components(
                    list@[j].path@,
                ),
        decreases body.len() - i,
    {
        let c: char = body[i];
        assert(body@.take(i + 1).drop_last() =~= body@.take(i as int));
        assert(body@.take(i + 1).last() == c);
        if escaped {
            if c != '\n' {
                word.push(c);
            }
            escaped = false;
        } else if c == '\\' {
            escaped = true;
        } else if is_white_space(c) {
            if word.len() > 0 {
                let mut done: Vec<char> = Vec::new();
                std::mem::swap(&mut done, &mut word);
                let ghost finished = done@;
                insert_sorted(&mut list, done, Ghost(words));
                proof {
                    words = words.push(finished);
                }
                assert(word@ =~= Seq::<char>::empty());
            }
        } else {
            word.push(c);
        }
        i = i + 1;
    }
    assert(body@.take(i as int) =~= body@);
    if escaped {
        return None;
    }
    if word.len() > 0 {
        let ghost finished = word@;
        insert_sorted(&mut list, word, Ghost(words));
        proof {
            words = words.push(finished);
        }
    }
    proof {
        if words.len() == 0 && list@.len() > 0 {
            assert(is_first(words, paths_of(list@)[0]));
        }
        assert(listed_words(text@) == Some(words));
    }
    if list.len() == 0 {
        return None;
    }
    let mut paths: Vec<String> = Vec::new();
    let mut k: usize = 0;
    while k < list.len()
        invariant
            k <= list.len(),
            strings(paths@) == paths_of(list@).take(k as int),
        decreases list.len() - k,
    {
        let ghost before = strings(paths@);
        let text = text_of(&list[k].path);
        let ghost added = text@;
        paths.push(text);
        assert(strings(paths@) =~= before.push(added));
        assert(paths_of(list@)[k as int] == added);
        k = k + 1;
        assert(strings(paths@) =~= paths_of(list@).take(k as int));
    }
    assert(paths_of(list@).take(k as int) =~= paths_of(list@));
    Some(paths)
}

/// An environment variable and its value, where it has one.
#[derive(Clone, Debug)]
pub struct Variable {
    pub name: Vec<u8>,
    pub value: Option<Vec<u8>>,
}

/// A compiler and what it printed about its version, where it ran.
#[derive(Clone, Debug)]
pub struct Compiler {
    pub name: Vec<u8>,
    pub output: Option<Vec<u8>>,
}

/// A compiler command.
#[derive(Clone, Debug)]
pub struct CompileCommand {
    pub directory: Option<Vec<u8>>,
    pub variables: Vec<Variable>,
    pub program: Vec<u8>,
    pub args: Vec<Vec<u8>>,
}

/// A dependency and the hash of its content.
#[derive(Clone, Debug)]
pub struct FileHash {
    pub path: Vec<u8>,
    pub content: u128,
}

/// The first bytes of every identity: `apxinf-nvcc-object-cache-v2` and a zero.
pub open spec fn cache_tag() -> Seq<u8> {
    seq![
        97u8, 112, 120, 105, 110, 102, 45, 110, 118, 99, 99, 45, 111, 98, 106, 101, 99, 116, 45,
        99, 97, 99, 104, 101, 45, 118, 50, 0,
    ]
}

pub open spec fn optional_bytes(value: Option<Vec<u8>>) -> Seq<u8> {
    match value {
        Some(bytes) => bytes@,
        None => Seq::empty(),
    }
}

pub open spec fn presence(value: Option<Vec<u8>>) -> u8 {
    match value {
        Some(_) => 1,
        None => 0,
    }
}

pub open spec fn compiler_bytes(compilers: Seq<Compiler>) -> Seq<u8>
    decreases compilers.len(),
{
    if compilers.len() == 0 {
        Seq::empty()
    } else {
        compiler_bytes(compilers.drop_last()) + compilers.last().name@ + optional_bytes(
            compilers.last().output,
        )
    }
}

pub open spec fn identity_variables(variables: Seq<Variable>) -> Seq<u8>
    decreases variables.len(),
{
    if variables.len() == 0 {
        Seq::empty()
    } else {
        (identity_variables(variables.drop_last()) + variables.last().name@).push(
            presence(variables.last().value),
        ) + optional_bytes(variables.last().value).push(0)
    }
}

pub open spec fn command_variables(variables: Seq<Variable>) -> Seq<u8>
    decreases variables.len(),
{
    if variables.len() == 0 {
        Seq::empty()
    } else {
        (command_variables(variables.drop_last()) + variables.last().name@).push(0).push(
            presence(variables.last().value),
        ) + optional_bytes(variables.last().value).push(0)
    }
}

pub open spec fn terminated(args: Seq<Vec<u8>>) -> Seq<u8>
    decreases args.len(),
{
    if args.len() == 0 {
        Seq::empty()
    } else {
        terminated(args.drop_last()) + args.last()@.push(0)
    }
}

/// The low `count` bytes of a number, the lowest first.
pub open spec fn little_endian(value: nat, count: nat) -> Seq<u8>
    decreases count,
{
    if count == 0 {
        Seq::empty()
    } else {
        seq![(value % 256) as u8] + little_endian(value / 256, (count - 1) as nat)
    }
}

pub open spec fn file_bytes(files: Seq<FileHash>) -> Seq<u8>
    decreases files.len(),
{
    if files.len() == 0 {
        Seq::empty()
    } else {
        file_bytes(files.drop_last()) + files.last().path@.push(0) + little_endian(
            files.last().content as nat,
            16,
        )
    }
}

/// Everything that an object depends on: the compilers and their environment,
/// the command, and the content of every file that it reads.
pub open spec fn signature_bytes(
    identity: Seq<u8>,
    command: CompileCommand,
    files: Seq<FileHash>,
) -> Seq<u8> {
    (identity + optional_bytes(command.directory)).push(0) + command_variables(command.variables@)
        + command.program@.push(0) + terminated(command.args@) + file_bytes(files)
}

proof fn lemma_little_endian(value: nat, other: nat, count: nat)
    ensures
        little_endian(value, count).len() == count,
        little_endian(value, count) == little_endian(other, count) ==> value
            % vstd::arithmetic::power::pow(256, count) as nat == other
            % vstd::arithmetic::power::pow(256, count) as nat,
    decreases count,
{
    vstd::arithmetic::power::lemma_pow_positive(256, count);
    reveal(vstd::arithmetic::power::pow);
    if count > 0 {
        let rest = (count - 1) as nat;
        let low = vstd::arithmetic::power::pow(256, rest);
        vstd::arithmetic::power::lemma_pow_positive(256, rest);
        lemma_little_endian(value / 256, other / 256, rest);
        let a = little_endian(value, count);
        let b = little_endian(other, count);
        assert(a.skip(1) =~= little_endian(value / 256, rest));
        assert(b.skip(1) =~= little_endian(other / 256, rest));
        if a == b {
            assert(a[0] == (value % 256) as u8 && b[0] == (other % 256) as u8);
            vstd::arithmetic::div_mod::lemma_mod_breakdown(value as int, 256, low);
            vstd::arithmetic::div_mod::lemma_mod_breakdown(other as int, 256, low);
        }
    }
}

/// The paths of some files.
pub open spec fn file_names(files: Seq<FileHash>) -> Seq<Seq<u8>> {
    files.map_values(|file: FileHash| file.path@)
}

/// The content hashes of some files.
pub open spec fn file_contents(files: Seq<FileHash>) -> Seq<u128> {
    files.map_values(|file: FileHash| file.content)
}

proof fn lemma_first_file(files: Seq<FileHash>)
    requires
        files.len() > 0,
    ensures
        file_bytes(files) == files[0].path@.push(0) + little_endian(files[0].content as nat, 16)
            + file_bytes(files.skip(1)),
    decreases files.len(),
{
    if files.len() == 1 {
        assert(files.drop_last() =~= Seq::<FileHash>::empty());
        assert(files.skip(1) =~= Seq::<FileHash>::empty());
        assert(file_bytes(files) =~= files[0].path@.push(0) + little_endian(
            files[0].content as nat,
            16,
        ) + file_bytes(files.skip(1)));
    } else {
        lemma_first_file(files.drop_last());
        assert(files.drop_last().skip(1) =~= files.skip(1).drop_last());
        assert(file_bytes(files) =~= files[0].path@.push(0) + little_endian(
            files[0].content as nat,
            16,
        ) + file_bytes(files.skip(1)));
    }
}

proof fn lemma_content_bytes(a: u128, b: u128)
    requires
        little_endian(a as nat, 16) == little_endian(b as nat, 16),
    ensures
        a == b,
{
    lemma_little_endian(a as nat, b as nat, 16);
    assert(vstd::arithmetic::power::pow(256, 16)
        == 0x1_0000_0000_0000_0000_0000_0000_0000_0000int) by {
        reveal_with_fuel(vstd::arithmetic::power::pow, 17);
    }
    let m: nat = 0x1_0000_0000_0000_0000_0000_0000_0000_0000nat;
    vstd::arithmetic::div_mod::lemma_small_mod(a as nat, m);
    vstd::arithmetic::div_mod::lemma_small_mod(b as nat, m);
}

proof fn lemma_file_lists(files: Seq<FileHash>, other: Seq<FileHash>)
    requires
        without_zero(file_names(files)),
        without_zero(file_names(other)),
        file_bytes(files) == file_bytes(other),
    ensures
        file_names(files) == file_names(other),
        file_contents(files) == file_contents(other),
    decreases files.len(),
{
    let x = file_bytes(files);
    let y = file_bytes(other);
    if files.len() > 0 && other.len() > 0 {
        let (a, b) = (files[0], other[0]);
        let (p, q) = (a.path@, b.path@);
        lemma_first_file(files);
        lemma_first_file(other);
        lemma_little_endian(a.content as nat, b.content as nat, 16);
        lemma_little_endian(b.content as nat, a.content as nat, 16);
        assert(x[p.len() as int] == 0 && y[q.len() as int] == 0);
        if p.len() < q.len() {
            assert(y[p.len() as int] == q[p.len() as int]);
            assert(file_names(other)[0][p.len() as int] != 0);
        } else if q.len() < p.len() {
            assert(x[q.len() as int] == p[q.len() as int]);
            assert(file_names(files)[0][q.len() as int] != 0);
        }
        let n = p.len() as int;
        assert(p =~= x.take(n) && q =~= y.take(n));
        assert(little_endian(a.content as nat, 16) =~= x.subrange(n + 1, n + 17));
        assert(little_endian(b.content as nat, 16) =~= y.subrange(n + 1, n + 17));
        lemma_content_bytes(a.content, b.content);
        assert(file_bytes(files.skip(1)) =~= x.skip(n + 17));
        assert(file_bytes(other.skip(1)) =~= y.skip(n + 17));
        assert(file_names(files.skip(1)) =~= file_names(files).skip(1));
        assert(file_names(other.skip(1)) =~= file_names(other).skip(1));
        assert forall|i: int, j: int|
            0 <= i < file_names(files.skip(1)).len() && 0 <= j < file_names(
                files.skip(1),
            )[i].len() implies #[trigger] file_names(files.skip(1))[i][j] != 0 by {
            assert(file_names(files)[i + 1][j] != 0);
        }
        assert forall|i: int, j: int|
            0 <= i < file_names(other.skip(1)).len() && 0 <= j < file_names(
                other.skip(1),
            )[i].len() implies #[trigger] file_names(other.skip(1))[i][j] != 0 by {
            assert(file_names(other)[i + 1][j] != 0);
        }
        lemma_file_lists(files.skip(1), other.skip(1));
        assert(file_names(files) =~= seq![p] + file_names(files.skip(1)));
        assert(file_names(other) =~= seq![q] + file_names(other.skip(1)));
        assert(file_contents(files) =~= seq![a.content] + file_contents(files.skip(1)));
        assert(file_contents(other) =~= seq![b.content] + file_contents(other.skip(1)));
    } else {
        if files.len() > 0 {
            lemma_first_file(files);
            assert(x.len() > 0);
        }
        if other.len() > 0 {
            lemma_first_file(other);
            assert(y.len() > 0);
        }
        assert(file_names(files) =~= file_names(other));
        assert(file_contents(files) =~= file_contents(other));
    }
}

proof fn lemma_same_file_bytes(files: Seq<FileHash>, other: Seq<FileHash>)
    requires
        file_names(files) == file_names(other),
        file_contents(files) == file_contents(other),
    ensures
        file_bytes(files) == file_bytes(other),
    decreases files.len(),
{
    assert(file_names(files).len() == files.len() && file_names(other).len() == other.len());
    if files.len() > 0 {
        assert(file_names(files).last() == files.last().path@);
        assert(file_names(other).last() == other.last().path@);
        assert(file_contents(files).last() == files.last().content);
        assert(file_contents(other).last() == other.last().content);
        assert(file_names(files.drop_last()) =~= file_names(files).drop_last());
        assert(file_names(other.drop_last()) =~= file_names(other).drop_last());
        assert(file_contents(files.drop_last()) =~= file_contents(files).drop_last());
        assert(file_contents(other.drop_last()) =~= file_contents(other).drop_last());
        lemma_same_file_bytes(files.drop_last(), other.drop_last());
    }
}

proof fn lemma_same_names_same_length(files: Seq<FileHash>, other: Seq<FileHash>)
    requires
        file_names(files) == file_names(other),
    ensures
        file_bytes(files).len() == file_bytes(other).len(),
    decreases files.len(),
{
    assert(file_names(files).len() == files.len() && file_names(other).len() == other.len());
    if files.len() > 0 {
        assert(file_names(files).last() == files.last().path@);
        assert(file_names(other).last() == other.last().path@);
        assert(file_names(files.drop_last()) =~= file_names(files).drop_last());
        assert(file_names(other.drop_last()) =~= file_names(other).drop_last());
        lemma_little_endian(files.last().content as nat, 0, 16);
        lemma_little_endian(other.last().content as nat, 0, 16);
        lemma_same_names_same_length(files.drop_last(), other.drop_last());
    }
}

/// Whether no string holds a zero byte. The arguments of a command and the paths
/// of files are such.
pub open spec fn without_zero(args: Seq<Seq<u8>>) -> bool {
    forall|i: int, j: int|
        0 <= i < args.len() && 0 <= j < args[i].len() ==> #[trigger] args[i][j] != 0
}

proof fn lemma_terminated(args: Seq<Vec<u8>>, other: Seq<Vec<u8>>)
    requires
        without_zero(byte_lists(args)),
        without_zero(byte_lists(other)),
        terminated(args) == terminated(other),
    ensures
        byte_lists(args) == byte_lists(other),
    decreases args.len(),
{
    let s = terminated(args);
    let t = terminated(other);
    if args.len() > 0 && other.len() > 0 {
        let (x, y) = (args.last()@, other.last()@);
        let (head, tail) = (terminated(args.drop_last()), terminated(other.drop_last()));
        let n = s.len() as int;
        assert(byte_lists(args)[args.len() - 1] == x);
        assert(byte_lists(other)[other.len() - 1] == y);
        assert(head.len() > 0 ==> head.last() == 0);
        assert(tail.len() > 0 ==> tail.last() == 0);
        if x.len() < y.len() {
            let at = n - 2 - x.len();
            assert(s[at] == head.last());
            assert(t[at] == y[y.len() - 1 - x.len()]);
            assert(byte_lists(other)[other.len() - 1][y.len() - 1 - x.len()] != 0);
        } else if y.len() < x.len() {
            let at = n - 2 - y.len();
            assert(t[at] == tail.last());
            assert(s[at] == x[x.len() - 1 - y.len()]);
            assert(byte_lists(args)[args.len() - 1][x.len() - 1 - y.len()] != 0);
        }
        assert(head =~= s.take(head.len() as int));
        assert(tail =~= t.take(tail.len() as int));
        assert(x =~= s.subrange(head.len() as int, n - 1));
        assert(y =~= t.subrange(tail.len() as int, n - 1));
        assert(byte_lists(args.drop_last()) =~= byte_lists(args).drop_last());
        assert(byte_lists(other.drop_last()) =~= byte_lists(other).drop_last());
        lemma_terminated(args.drop_last(), other.drop_last());
        assert(byte_lists(args) =~= byte_lists(args.drop_last()).push(x));
        assert(byte_lists(other) =~= byte_lists(other.drop_last()).push(y));
    } else {
        assert(args.len() > 0 ==> s.last() == 0 && s.len() > 0);
        assert(other.len() > 0 ==> t.last() == 0 && t.len() > 0);
        assert(byte_lists(args) =~= byte_lists(other));
    }
}

proof fn lemma_same_terminated(args: Seq<Vec<u8>>, other: Seq<Vec<u8>>)
    requires
        byte_lists(args) == byte_lists(other),
    ensures
        terminated(args) == terminated(other),
    decreases args.len(),
{
    assert(byte_lists(args).len() == args.len() && byte_lists(other).len() == other.len());
    if args.len() > 0 {
        assert(byte_lists(args).last() == args.last()@);
        assert(byte_lists(other).last() == other.last()@);
        assert(byte_lists(args.drop_last()) =~= byte_lists(args).drop_last());
        assert(byte_lists(other.drop_last()) =~= byte_lists(other).drop_last());
        lemma_same_terminated(args.drop_last(), other.drop_last());
    }
}

/// Whether two commands differ in nothing but their arguments.
pub open spec fn same_setting(command: CompileCommand, other: CompileCommand) -> bool {
    &&& optional_bytes(command.directory) == optional_bytes(other.directory)
    &&& command_variables(command.variables@) == command_variables(other.variables@)
    &&& command.program@ == other.program@
}

/// The signature tells the arguments of a command, the files that it reads and
/// the content hash of each: when an argument changes, when a file does, or when
/// one is added or dropped, so does the signature, and when nothing does, it
/// stays. Left out are commands whose arguments and paths both differ, and yet
/// share a signature, the hash of a file reading as an argument.
pub proof fn lemma_signature_holds_arguments_and_files(
    identity: Seq<u8>,
    command: CompileCommand,
    files: Seq<FileHash>,
    other: CompileCommand,
    other_files: Seq<FileHash>,
)
    requires
        same_setting(command, other),
        without_zero(byte_lists(command.args@)),
        without_zero(byte_lists(other.args@)),
        without_zero(file_names(files)),
        without_zero(file_names(other_files)),
        byte_lists(command.args@) != byte_lists(other.args@) && file_names(files) != file_names(
            other_files,
        ) ==> signature_bytes(identity, command, files) != signature_bytes(
            identity,
            other,
            other_files,
        ),
    ensures
        signature_bytes(identity, command, files) == signature_bytes(identity, other, other_files)
            <==> byte_lists(command.args@) == byte_lists(other.args@) && file_names(files)
            == file_names(other_files) && file_contents(files) == file_contents(other_files),
{
    let x = signature_bytes(identity, command, files);
    let y = signature_bytes(identity, other, other_files);
    let head = (identity + optional_bytes(command.directory)).push(0) + command_variables(
        command.variables@,
    ) + command.program@.push(0);
    let (a, b) = (terminated(command.args@), terminated(other.args@));
    let start = head.len() as int;
    assert(x =~= head + a + file_bytes(files));
    assert(y =~= head + b + file_bytes(other_files));
    if byte_lists(command.args@) == byte_lists(other.args@) {
        lemma_same_terminated(command.args@, other.args@);
        if x == y {
            assert(file_bytes(files) =~= x.skip(start + a.len()));
            assert(file_bytes(other_files) =~= y.skip(start + b.len()));
            lemma_file_lists(files, other_files);
        }
        if file_names(files) == file_names(other_files) && file_contents(files) == file_contents(
            other_files,
        ) {
            lemma_same_file_bytes(files, other_files);
        }
    } else if file_names(files) == file_names(other_files) {
        lemma_same_names_same_length(files, other_files);
        if x == y {
            assert(a =~= x.subrange(start, start + a.len()));
            assert(b =~= y.subrange(start, start + b.len()));
            lemma_terminated(command.args@, other.args@);
        }
    }
}

fn append(target: &mut Vec<u8>, bytes: &Vec<u8>)
    ensures
        final(target)@ == old(target)@ + bytes@,
{
    let mut i: usize = 0;
    assert(target@ =~= old(target)@ + bytes@.take(0));
    while i < bytes.len()
        invariant
            i <= bytes.len(),
            target@ == old(target)@ + bytes@.take(i as int),
        decreases bytes.len() - i,
    {
        target.push(bytes[i]);
        i = i + 1;
        assert(target@ =~= old(target)@ + bytes@.take(i as int));
    }
    assert(bytes@.take(i as int) =~= bytes@);
}

fn append_optional(target: &mut Vec<u8>, value: &Option<Vec<u8>>)
    ensures
        final(target)@ == old(target)@ + optional_bytes(*value),
{
    match value {
        Some(bytes) => append(target, bytes),
        None => {
            assert(target@ =~= old(target)@ + Seq::<u8>::empty());
        },
    }
}

fn append_little_endian(target: &mut Vec<u8>, value: u128, count: u8)
    ensures
        final(target)@ == old(target)@ + little_endian(value as nat, count as nat),
    decreases count,
{
    if count > 0 {
        target.push((value % 256) as u8);
        let ghost pushed = target@;
        append_little_endian(target, value / 256, count - 1);
        assert(target@ =~= old(target)@ + little_endian(value as nat, count as nat));
    } else {
        assert(target@ =~= old(target)@ + little_endian(value as nat, 0));
    }
}

fn presence_of(value: &Option<Vec<u8>>) -> (byte: u8)
    ensures
        byte == presence(*value),
{
    match value {
        Some(_) => 1,
        None => 0,
    }
}

/// The arguments of the command that lists dependencies: the compiler's own,
/// without the object file and without `-c`.
pub open spec fn listing_args(args: Seq<Vec<u8>>) -> Seq<Seq<u8>>
    decreases args.len(),
{
    if args.len() == 0 {
        seq![
            seq![45u8, 77],
            seq![45u8, 77, 84],
            seq![97u8, 112, 120, 105, 110, 102, 95, 111, 98, 106, 101, 99, 116],
        ]
    } else if args[0]@ =~= seq![45u8, 111] {
        if args.len() == 1 {
            listing_args(args.skip(1))
        } else {
            listing_args(args.skip(2))
        }
    } else if args[0]@ =~= seq![45u8, 99] {
        listing_args(args.skip(1))
    } else {
        seq![args[0]@] + listing_args(args.skip(1))
    }
}

fn copy_of(bytes: &Vec<u8>) -> (copy: Vec<u8>)
    ensures
        copy@ == bytes@,
{
    let mut copy: Vec<u8> = Vec::new();
    append(&mut copy, bytes);
    assert(copy@ =~= bytes@);
    copy
}

pub open spec fn byte_lists(list: Seq<Vec<u8>>) -> Seq<Seq<u8>> {
    list.map_values(|bytes: Vec<u8>| bytes@)
}

/// What to run in place of a command to have its dependencies listed.
pub fn dependency_args(args: &Vec<Vec<u8>>) -> (result: Vec<Vec<u8>>)
    ensures
        byte_lists(result@) == listing_args(args@),
{
    let mut result: Vec<Vec<u8>> = Vec::new();
    let mut i: usize = 0;
    assert(args@.skip(0) =~= args@);
    assert(byte_lists(result@) + listing_args(args@.skip(0)) =~= listing_args(args@));
    while i < args.len()
        invariant
            i <= args.len(),
            byte_lists(result@) + listing_args(args@.skip(i as int)) == listing_args(args@),
        decreases args.len() - i,
    {
        let ghost rest = args@.skip(i as int);
        let ghost before = byte_lists(result@);
        let arg = &args[i];
        assert(rest[0]@ == arg@);
        assert(rest.skip(1) =~= args@.skip(i + 1));
        let output = arg.len() == 2 && arg[0] == 45 && arg[1] == 111;
        let compile = arg.len() == 2 && arg[0] == 45 && arg[1] == 99;
        assert(output == (arg@ =~= seq![45u8, 111]));
        assert(compile == (arg@ =~= seq![45u8, 99]));
        if output {
            if i + 1 < args.len() {
                assert(rest.skip(2) =~= args@.skip(i + 2));
                i = i + 2;
            } else {
                i = i + 1;
            }
        } else if compile {
            i = i + 1;
        } else {
            result.push(copy_of(arg));
            i = i + 1;
            assert(byte_lists(result@) =~= before.push(arg@));
            assert(byte_lists(result@) + listing_args(args@.skip(i as int)) =~= before
                + listing_args(rest));
        }
    }
    assert(args@.skip(i as int) =~= Seq::<Vec<u8>>::empty());
    let ghost before = byte_lists(result@);
    result.push(vec![45u8, 77]);
    result.push(vec![45u8, 77, 84]);
    result.push(vec![97u8, 112, 120, 105, 110, 102, 95, 111, 98, 106, 101, 99, 116]);
    proof {
        let n = before.len() as int;
        assert(result@[n]@ =~= seq![45u8, 77]);
        assert(result@[n + 1]@ =~= seq![45u8, 77, 84]);
        assert(result@[n + 2]@ =~= seq![
            97u8, 112, 120, 105, 110, 102, 95, 111, 98, 106, 101, 99, 116,
        ]);
        assert(byte_lists(result@) =~= before + listing_args(Seq::<Vec<u8>>::empty()));
    }
    result
}

/// Whether a path starts at the root.
pub open spec fn is_absolute(path: Seq<u8>) -> bool {
    path.len() > 0 && path[0] == 47
}

/// A relative path below a directory.
pub open spec fn joined(directory: Seq<u8>, path: Seq<u8>) -> Seq<u8> {
    if directory.len() == 0 || directory.last() == 47 {
        directory + path
    } else {
        directory.push(47) + path
    }
}

/// Where a dependency lies: a relative one below the command's directory, or
/// below the working directory where the command has none. Without a working
/// directory no relative dependency is found.
pub fn dependency_path(
    path: &Vec<u8>,
    directory: &Option<Vec<u8>>,
    working: &Option<Vec<u8>>,
) -> (result: Option<Vec<u8>>)
    ensures
        match result {
            Some(found) => if is_absolute(path@) {
                found@ == path@
            } else {
                *working matches Some(working) && found@ == joined(
                    match *directory {
                        Some(directory) => directory@,
                        None => working@,
                    },
                    path@,
                )
            },
            None => !is_absolute(path@) && *working is None,
        },
{
    if path.len() > 0 && path[0] == 47 {
        return Some(copy_of(path));
    }
    let working = match working {
        Some(working) => working,
        None => {
            return None;
        },
    };
    let mut found = match directory {
        Some(directory) => copy_of(directory),
        None => copy_of(working),
    };
    if found.len() > 0 && found[found.len() - 1] != 47 {
        found.push(47);
    }
    append(&mut found, path);
    Some(found)
}

/// The bytes of a path as characters, one for one.
pub open spec fn wide(path: Seq<u8>) -> Seq<char> {
    path.map_values(|byte: u8| byte as char)
}

/// Whether two paths have the same components, and so name the same file.
pub open spec fn same_path(a: Seq<u8>, b: Seq<u8>) -> bool {
    components(wide(a)) == components(wide(b))
}

/// The hash that was taken of a file, if it was read before, under this path or
/// another with the same components.
pub open spec fn known_content(files: Seq<FileHash>, path: Seq<u8>) -> Option<u128>
    decreases files.len(),
{
    if files.len() == 0 {
        None
    } else if same_path(files.last().path@, path) {
        Some(files.last().content)
    } else {
        known_content(files.drop_last(), path)
    }
}

fn wide_of(path: &Vec<u8>) -> (result: Vec<char>)
    ensures
        result@ == wide(path@),
{
    let mut result: Vec<char> = Vec::new();
    let mut i: usize = 0;
    assert(result@ =~= wide(path@.take(0)));
    while i < path.len()
        invariant
            i <= path.len(),
            result@ == wide(path@.take(i as int)),
        decreases path.len() - i,
    {
        result.push(path[i] as char);
        i = i + 1;
        assert(result@ =~= wide(path@.take(i as int)));
    }
    assert(path@.take(i as int) =~= path@);
    result
}

fn parts_of(path: &Vec<u8>) -> (result: Vec<Vec<u32>>)
    ensures
        words_of(result@) == components(wide(path@)),
{
    components_of(&wide_of(path))
}

/// The variables that the compilers heed.
pub open spec fn heeded() -> Seq<&'static str> {
    seq![
        "PATH",
        "CPATH",
        "CPLUS_INCLUDE_PATH",
        "C_INCLUDE_PATH",
        "LIBRARY_PATH",
        "COMPILER_PATH",
        "GCC_EXEC_PREFIX",
        "CUDAHOSTCXX",
        "NVCC_CCBIN",
        "CC",
        "CXX",
        "NVCC_PREPEND_FLAGS",
        "NVCC_APPEND_FLAGS",
        "SOURCE_DATE_EPOCH",
    ]
}

/// The variables that belong to the identity of a cache.
pub fn identity_names() -> (names: Vec<&'static str>)
    ensures
        names@ == heeded(),
{
    let names = vec![
        "PATH",
        "CPATH",
        "CPLUS_INCLUDE_PATH",
        "C_INCLUDE_PATH",
        "LIBRARY_PATH",
        "COMPILER_PATH",
        "GCC_EXEC_PREFIX",
        "CUDAHOSTCXX",
        "NVCC_CCBIN",
        "CC",
        "CXX",
        "NVCC_PREPEND_FLAGS",
        "NVCC_APPEND_FLAGS",
        "SOURCE_DATE_EPOCH",
    ];
    assert(names@ =~= heeded());
    names
}

/// The compilers that belong to the identity of a cache: the given one, and the
/// host compiler that it calls.
pub fn identity_compilers<'a>(nvcc: &'a str) -> (names: Vec<&'a str>)
    ensures
        names@ == seq![nvcc, "g++"],
{
    let names = vec![nvcc, "g++"];
    assert(names@ =~= seq![nvcc, "g++"]);
    names
}

/// Reuses objects whose signature has not changed.
pub struct NvccCache {
    pub identity: Vec<u8>,
    pub files: Vec<FileHash>,
}

impl NvccCache {
    /// A cache for the given compilers, with the variables that they heed.
    pub fn new(compilers: &Vec<Compiler>, variables: &Vec<Variable>) -> (cache: Self)
        ensures
            cache.identity@ == cache_tag() + compiler_bytes(compilers@) + identity_variables(
                variables@,
            ),
            cache.files@.len() == 0,
    {
        let mut identity: Vec<u8> = vec![
            97u8, 112, 120, 105, 110, 102, 45, 110, 118, 99, 99, 45, 111, 98, 106, 101, 99, 116,
            45, 99, 97, 99, 104, 101, 45, 118, 50, 0,
        ];
        let ghost tag = cache_tag();
        assert(identity@ =~= tag);
        let mut i: usize = 0;
        assert(compilers@.take(0) =~= Seq::<Compiler>::empty());
        assert(identity@ =~= tag + compiler_bytes(compilers@.take(0)));
        while i < compilers.len()
            invariant
                i <= compilers.len(),
                identity@ == tag + compiler_bytes(compilers@.take(i as int)),
            decreases compilers.len() - i,
        {
            assert(compilers@.take(i + 1).drop_last() =~= compilers@.take(i as int));
            append(&mut identity, &compilers[i].name);
            append_optional(&mut identity, &compilers[i].output);
            i = i + 1;
            assert(identity@ =~= tag + compiler_bytes(compilers@.take(i as int)));
        }
        assert(compilers@.take(i as int) =~= compilers@);
        let ghost head = identity@;
        let mut i: usize = 0;
        assert(variables@.take(0) =~= Seq::<Variable>::empty());
        assert(identity@ =~= head + identity_variables(variables@.take(0)));
        while i < variables.len()
            invariant
                i <= variables.len(),
                identity@ == head + identity_variables(variables@.take(i as int)),
            decreases variables.len() - i,
        {
            assert(variables@.take(i + 1).drop_last() =~= variables@.take(i as int));
            append(&mut identity, &variables[i].name);
            identity.push(presence_of(&variables[i].value));
            append_optional(&mut identity, &variables[i].value);
            identity.push(0);
            i = i + 1;
            assert(identity@ =~= head + identity_variables(variables@.take(i as int)));
        }
        assert(variables@.take(i as int) =~= variables@);
        NvccCache { identity, files: Vec::new() }
    }

    /// The hash of a file's content, if the file was read before.
    pub fn content(&self, path: &Vec<u8>) -> (found: Option<u128>)
        ensures
            found == known_content(self.files@, path@),
    {
        let parts = parts_of(path);
        let mut i: usize = self.files.len();
        assert(self.files@.take(i as int) =~= self.files@);
        while i > 0
            invariant
                i <= self.files.len(),
                words_of(parts@) == components(wide(path@)),
                known_content(self.files@, path@) == known_content(
                    self.files@.take(i as int),
                    path@,
                ),
            decreases i,
        {
            assert(self.files@.take(i as int).drop_last() =~= self.files@.take(i - 1));
            i = i - 1;
            let other = parts_of(&self.files[i].path);
            proof {
                lemma_path_order(words_of(other@), words_of(parts@), words_of(parts@));
            }
            if order_paths(&other, &parts) == 0 {
                return Some(self.files[i].content);
            }
        }
        None
    }

    /// Take the hash of a file that was just read, and remember it.
    pub fn remember(&mut self, path: Vec<u8>, content: &[u8]) -> (value: u128)
        ensures
            value == fnv(content@),
            final(self).identity@ == old(self).identity@,
            forall|other: Seq<u8>| #[trigger]
                known_content(final(self).files@, other) == (if same_path(path@, other) {
                    Some(value)
                } else {
                    known_content(old(self).files@, other)
                }),
    {
        let value: u128 = hash(content);
        self.files.push(FileHash { path, content: value });
        assert(self.files@.drop_last() =~= old(self).files@);
        value
    }

    /// The fingerprint of a command that reads the given files.
    pub fn fingerprint(&self, command: &CompileCommand, files: &Vec<FileHash>) -> (value: u128)
        ensures
            value == fnv(signature_bytes(self.identity@, *command, files@)),
    {
        let mut signature = copy_of(&self.identity);
        append_optional(&mut signature, &command.directory);
        signature.push(0);
        let ghost head = signature@;
        let variables = &command.variables;
        let mut i: usize = 0;
        assert(variables@.take(0) =~= Seq::<Variable>::empty());
        assert(signature@ =~= head + command_variables(variables@.take(0)));
        while i < variables.len()
            invariant
                i <= variables.len(),
                signature@ == head + command_variables(variables@.take(i as int)),
            decreases variables.len() - i,
        {
            assert(variables@.take(i + 1).drop_last() =~= variables@.take(i as int));
            append(&mut signature, &variables[i].name);
            signature.push(0);
            signature.push(presence_of(&variables[i].value));
            append_optional(&mut signature, &variables[i].value);
            signature.push(0);
            i = i + 1;
            assert(signature@ =~= head + command_variables(variables@.take(i as int)));
        }
        assert(variables@.take(i as int) =~= variables@);
        append(&mut signature, &command.program);
        signature.push(0);
        let ghost middle = signature@;
        assert(middle =~= head + command_variables(variables@) + command.program@.push(0));
        let args = &command.args;
        let mut i: usize = 0;
        assert(args@.take(0) =~= Seq::<Vec<u8>>::empty());
        assert(signature@ =~= middle + terminated(args@.take(0)));
        while i < args.len()
            invariant
                i <= args.len(),
                signature@ == middle + terminated(args@.take(i as int)),
            decreases args.len() - i,
        {
            assert(args@.take(i + 1).drop_last() =~= args@.take(i as int));
            append(&mut signature, &args[i]);
            signature.push(0);
            i = i + 1;
            assert(signature@ =~= middle + terminated(args@.take(i as int)));
        }
        assert(args@.take(i as int) =~= args@);
        let ghost tail = signature@;
        let mut i: usize = 0;
        assert(files@.take(0) =~= Seq::<FileHash>::empty());
        assert(signature@ =~= tail + file_bytes(files@.take(0)));
        while i < files.len()
            invariant
                i <= files.len(),
                signature@ == tail + file_bytes(files@.take(i as int)),
            decreases files.len() - i,
        {
            assert(files@.take(i + 1).drop_last() =~= files@.take(i as int));
            append(&mut signature, &files[i].path);
            signature.push(0);
            append_little_endian(&mut signature, files[i].content, 16);
            i = i + 1;
            assert(signature@ =~= tail + file_bytes(files@.take(i as int)));
        }
        assert(files@.take(i as int) =~= files@);
        assert(signature@ =~= signature_bytes(self.identity@, *command, files@));
        hash(signature.as_slice())
    }
}

/// What a stamp says: the fingerprint and the hash of the object that was made
/// from it.
pub open spec fn stamp_text(key: u128, object: u128) -> Seq<char> {
    (hex(key as nat, 32).push(' ') + hex(object as nat, 32)).push('\n')
}

/// The record that is written beside an object.
pub fn stamp_record(key: u128, object: &[u8]) -> (record: String)
    ensures
        record@ == stamp_text(key, fnv(object@)),
{
    let mut record = String::new();
    push_hex(&mut record, key, 32);
    record.push(' ');
    push_hex(&mut record, hash(object), 32);
    record.push('\n');
    assert(record@ =~= stamp_text(key, fnv(object@)));
    record
}

pub open spec fn may_reuse(
    fingerprint: Option<u128>,
    record: Option<Seq<char>>,
    object: Option<Seq<u8>>,
) -> bool {
    match (fingerprint, record, object) {
        (Some(key), Some(record), Some(object)) => record == stamp_text(key, fnv(object)),
        _ => false,
    }
}

fn same_text(a: &str, b: &String) -> (result: bool)
    ensures
        result == (a@ == b@),
{
    let x = chars_of(a);
    crate::text::same(&x, b.as_str())
}

/// Whether an object can stay: the fingerprint is known, and the stamp was
/// written for it and for the object as it is.
pub fn reusable(fingerprint: Option<u128>, record: Option<&str>, object: Option<&[u8]>) -> (result:
    bool)
    ensures
        result == may_reuse(
            fingerprint,
            match record {
                Some(record) => Some(record@),
                None => None,
            },
            match object {
                Some(object) => Some(object@),
                None => None,
            },
        ),
{
    match (fingerprint, record, object) {
        (Some(key), Some(record), Some(object)) => same_text(record, &stamp_record(key, object)),
        _ => false,
    }
}

/// A stamp determines the fingerprint and the object's hash that it was
/// written for.
pub proof fn lemma_stamp_is_injective(key: u128, object: u128, other_key: u128, other_object: u128)
    requires
        stamp_text(key, object) == stamp_text(other_key, other_object),
    ensures
        key == other_key,
        object == other_object,
{
    let a = stamp_text(key, object);
    let b = stamp_text(other_key, other_object);
    lemma_hex_len(key as nat, 32);
    lemma_hex_len(object as nat, 32);
    lemma_hex_len(other_key as nat, 32);
    lemma_hex_len(other_object as nat, 32);
    assert(a.subrange(0, 32) =~= hex(key as nat, 32));
    assert(b.subrange(0, 32) =~= hex(other_key as nat, 32));
    assert(a.subrange(33, 65) =~= hex(object as nat, 32));
    assert(b.subrange(33, 65) =~= hex(other_object as nat, 32));
    assert(vstd::arithmetic::power::pow(16, 32) == 0x1_0000_0000_0000_0000_0000_0000_0000_0000) by {
        reveal_with_fuel(vstd::arithmetic::power::pow, 33);
    }
    lemma_hex_injective(key as nat, other_key as nat, 32);
    lemma_hex_injective(object as nat, other_object as nat, 32);
}

/// An object is reused only for the fingerprint that it was stamped with, and
/// only while its hash is the one that was stamped.
pub proof fn lemma_reuse_is_valid(
    stamped_key: u128,
    stamped_object: u128,
    key: u128,
    object: Seq<u8>,
)
    ensures
        may_reuse(Some(key), Some(stamp_text(stamped_key, stamped_object)), Some(object)) <==> key
            == stamped_key && fnv(object) == stamped_object,
{
    if may_reuse(Some(key), Some(stamp_text(stamped_key, stamped_object)), Some(object)) {
        lemma_stamp_is_injective(stamped_key, stamped_object, key, fnv(object));
    }
}

/// The next thing a compilation has to do.
#[derive(Clone, Copy, Debug, PartialEq, Eq, Structural)]
pub enum CompileStage {
    /// Remove the stamp; that it does not exist is no failure.
    RemoveStamp,
    /// Run the compiler.
    Run,
    /// Write the stamp of the new object.
    WriteStamp,
    Done,
    Failed,
}

pub open spec fn compile_begins(reusable: bool) -> CompileStage {
    if reusable {
        CompileStage::Done
    } else {
        CompileStage::RemoveStamp
    }
}

pub fn compile_start(reusable: bool) -> (stage: CompileStage)
    ensures
        stage == compile_begins(reusable),
{
    if reusable {
        CompileStage::Done
    } else {
        CompileStage::RemoveStamp
    }
}

pub open spec fn compile_next(stage: CompileStage, fingerprinted: bool, succeeded: bool) -> CompileStage {
    match stage {
        CompileStage::Done | CompileStage::Failed => stage,
        _ => if !succeeded {
            CompileStage::Failed
        } else {
            match stage {
                CompileStage::RemoveStamp => CompileStage::Run,
                CompileStage::Run => if fingerprinted {
                    CompileStage::WriteStamp
                } else {
                    CompileStage::Done
                },
                _ => CompileStage::Done,
            }
        },
    }
}

/// The stage after a step succeeded or failed. `fingerprinted` says that the
/// command has a fingerprint.
pub fn compile_advance(stage: CompileStage, fingerprinted: bool, succeeded: bool) -> (next:
    CompileStage)
    ensures
        next == compile_next(stage, fingerprinted, succeeded),
{
    match stage {
        CompileStage::Done | CompileStage::Failed => stage,
        _ => if !succeeded {
            CompileStage::Failed
        } else {
            match stage {
                CompileStage::RemoveStamp => CompileStage::Run,
                CompileStage::Run => if fingerprinted {
                    CompileStage::WriteStamp
                } else {
                    CompileStage::Done
                },
                _ => CompileStage::Done,
            }
        },
    }
}

/// The compiler runs only once the stamp is gone, so a failure leaves no stamp;
/// and a stamp is written only for a command with a fingerprint.
pub proof fn lemma_failed_compilation_has_no_stamp(
    stage: CompileStage,
    fingerprinted: bool,
    succeeded: bool,
)
    ensures
        compile_next(stage, fingerprinted, succeeded) == CompileStage::Run ==> stage
            == CompileStage::RemoveStamp && succeeded,
        compile_next(stage, fingerprinted, succeeded) == CompileStage::WriteStamp ==> stage
            == CompileStage::Run && succeeded && fingerprinted,
{
}

/// Without a fingerprint, whatever the stamp and the object, the compiler runs:
/// the first step removes the stamp, the next one compiles, and no stamp is
/// written.
pub proof fn lemma_missing_fingerprint_compiles(record: Option<Seq<char>>, object: Option<Seq<u8>>)
    ensures
        !may_reuse(None, record, object),
        ({
            let first = compile_begins(may_reuse(None, record, object));
            let second = compile_next(first, false, true);
            &&& first == CompileStage::RemoveStamp
            &&& second == CompileStage::Run
            &&& compile_next(second, false, true) == CompileStage::Done
            &&& compile_next(second, false, false) == CompileStage::Failed
        }),
{
}

/// Whether the hash tells two byte strings apart, should they differ.
pub open spec fn told_apart(a: Seq<u8>, b: Seq<u8>) -> bool {
    fnv(a) == fnv(b) ==> a == b
}

/// The hash of each content.
pub open spec fn hashes(contents: Seq<Seq<u8>>) -> Seq<u128> {
    contents.map_values(|content: Seq<u8>| fnv(content))
}

/// After a compilation that wrote its stamp, the next one is left out exactly
/// where nothing changed: the arguments, the files that are read with the content
/// of each, and the object. Where one of them did, the stamp is removed and the
/// command runs again. Left out are changes that collide in the hash, and those
/// of both arguments and paths that share a signature.
pub proof fn lemma_only_changes_recompile(
    identity: Seq<u8>,
    command: CompileCommand,
    files: Seq<FileHash>,
    contents: Seq<Seq<u8>>,
    object: Seq<u8>,
    other: CompileCommand,
    other_files: Seq<FileHash>,
    other_contents: Seq<Seq<u8>>,
    other_object: Seq<u8>,
)
    requires
        same_setting(command, other),
        without_zero(byte_lists(command.args@)),
        without_zero(byte_lists(other.args@)),
        without_zero(file_names(files)),
        without_zero(file_names(other_files)),
        file_contents(files) == hashes(contents),
        file_contents(other_files) == hashes(other_contents),
        byte_lists(command.args@) != byte_lists(other.args@) && file_names(files) != file_names(
            other_files,
        ) ==> signature_bytes(identity, command, files) != signature_bytes(
            identity,
            other,
            other_files,
        ),
        forall|i: int|
            0 <= i < contents.len() && i < other_contents.len() ==> #[trigger] told_apart(
                contents[i],
                other_contents[i],
            ),
        told_apart(
            signature_bytes(identity, command, files),
            signature_bytes(identity, other, other_files),
        ),
        told_apart(object, other_object),
    ensures
        ({
            let stamp = stamp_text(fnv(signature_bytes(identity, command, files)), fnv(object));
            let key = fnv(signature_bytes(identity, other, other_files));
            let first = compile_begins(may_reuse(Some(key), Some(stamp), Some(other_object)));
            if byte_lists(command.args@) == byte_lists(other.args@) && file_names(files)
                == file_names(other_files) && contents == other_contents && object
                == other_object {
                first == CompileStage::Done
            } else {
                first == CompileStage::RemoveStamp && compile_next(first, true, true)
                    == CompileStage::Run
            }
        }),
{
    lemma_signature_holds_arguments_and_files(identity, command, files, other, other_files);
    lemma_reuse_is_valid(
        fnv(signature_bytes(identity, command, files)),
        fnv(object),
        fnv(signature_bytes(identity, other, other_files)),
        other_object,
    );
    if hashes(contents) == hashes(other_contents) {
        assert(hashes(contents).len() == contents.len());
        assert(hashes(other_contents).len() == other_contents.len());
        assert forall|i: int| 0 <= i < contents.len() implies contents[i] == other_contents[i] by {
            assert(hashes(contents)[i] == hashes(other_contents)[i]);
            assert(told_apart(contents[i], other_contents[i]));
        }
        assert(contents =~= other_contents);
    }
}

} // verus!
