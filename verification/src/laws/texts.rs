//! Numbers and lists in text are read back as they were written.

use crate::context::{
    dotted_version, format_cublas_version, format_cuda_runtime_version, CudaLibraryVersions,
};
use crate::error::Error;
use crate::kernels::gemm::fp8::{
    configured_fp8_bf16_heuristic, entry_rank, is_extent, listed_rank, parse_fp8_bf16_heuristic,
};
use crate::text::{
    all_digits, decimal, digit, digits_value, find, first_index, hex, is_digit,
    lemma_decimal_digits, lemma_first_index, parse_i32, parse_usize, parsed_i32, pieces,
    signed_decimal, split, trim, trimmed, white_space, EnvironmentValue,
};
use vstd::prelude::*;

verus! {

proof fn lemma_decimal_value(n: nat)
    ensures
        all_digits(decimal(n)),
        digits_value(decimal(n)) == n,
        decimal(n)[0] != '+' && decimal(n)[0] != '-',
    decreases n,
{
    lemma_decimal_digits(n);
    if n >= 10 {
        lemma_decimal_value(n / 10);
        assert(decimal(n).drop_last() =~= decimal(n / 10));
        assert(decimal(n)[0] == decimal(n / 10)[0]);
        assert(decimal(n).last() == digit(n as int % 10));
    } else {
        assert(decimal(n).drop_last() =~= Seq::<char>::empty());
        assert(digits_value(decimal(n).drop_last()) == 0);
        assert(decimal(n).last() == digit(n as int));
    }
}

/// A number in decimal is read back as that number, and with a sign as a signed one.
pub proof fn lemma_numbers_are_read_back(
    n: usize,
    i: i32,
    unsigned: Vec<char>,
    signed: Vec<char>,
    read: Option<usize>,
    read_signed: Option<i32>,
)
    requires
        unsigned@ == decimal(n as nat) || unsigned@ == seq!['+'] + decimal(n as nat),
        signed@ == signed_decimal(i as int),
        call_ensures(parse_usize, (&unsigned,), read),
        call_ensures(parse_i32, (&signed,), read_signed),
    ensures
        read == Some(n),
        read_signed == Some(i),
{
    lemma_decimal_value(n as nat);
    assert((seq!['+'] + decimal(n as nat)).skip(1) =~= decimal(n as nat));
    let size: nat = if i < 0 {
        (-(i as int)) as nat
    } else {
        i as nat
    };
    lemma_decimal_value(size);
    assert((seq!['-'] + decimal(size)).skip(1) =~= decimal(size));
}

/// A text with anything but digits behind its sign is no number.
pub proof fn lemma_only_digits_are_read(
    text: Vec<char>,
    at: int,
    read: Option<usize>,
    read_signed: Option<i32>,
)
    requires
        call_ensures(parse_usize, (&text,), read),
        call_ensures(parse_i32, (&text,), read_signed),
        0 <= at < text@.len(),
        !is_digit(text@[at]),
        at > 0 || (text@[0] != '+' && text@[0] != '-') || text@.len() == 1,
    ensures
        read is None,
        read_signed is None,
{
    let rest = text@.skip(1);
    if at > 0 {
        assert(rest[at - 1] == text@[at]);
    }
}

/// The number that hexadecimal digits stand for.
pub open spec fn hex_value(s: Seq<char>) -> int
    decreases s.len(),
{
    if s.len() == 0 {
        0
    } else {
        16 * hex_value(s.drop_last()) + if is_digit(s.last()) {
            s.last() as int - 0x30
        } else {
            s.last() as int - 0x61 + 10
        }
    }
}

/// Hexadecimal digits stand for the number that they were made of, as far as they reach.
pub proof fn lemma_hex_is_read_back(n: nat, width: nat)
    requires
        n < vstd::arithmetic::power::pow(16, width),
    ensures
        hex_value(hex(n, width)) == n,
        hex(n, width).len() == width,
    decreases width,
{
    vstd::arithmetic::power::lemma_pow0(16);
    if width > 0 {
        let rest = (width - 1) as nat;
        assert(vstd::arithmetic::power::pow(16, width) == 16 * vstd::arithmetic::power::pow(
            16,
            rest,
        )) by {
            reveal(vstd::arithmetic::power::pow);
        }
        lemma_hex_is_read_back(n / 16, rest);
        assert(hex(n, width).drop_last() =~= hex(n / 16, rest));
        assert(hex(n, width).last() == digit(n as int % 16));
    }
}

/// Trimming leaves a part of the text that neither starts nor ends with white space, and
/// drops nothing but white space.
pub proof fn lemma_trim_drops_white_space(chars: Vec<char>, result: Vec<char>)
    requires
        call_ensures(trim, (&chars,), result),
    ensures
        result@.len() > 0 ==> !white_space(result@[0]) && !white_space(result@.last()),
        exists|start: int| #[trigger] is_trimmed_at(chars@, result@, start),
{
    let start = lemma_trimmed(chars@);
    assert(is_trimmed_at(chars@, result@, start));
}

/// Whether a part of a text stands at `start`, with nothing but white space around it.
pub open spec fn is_trimmed_at(s: Seq<char>, part: Seq<char>, start: int) -> bool {
    &&& 0 <= start && start + part.len() <= s.len()
    &&& part == s.subrange(start, start + part.len())
    &&& forall|i: int|
        0 <= i < s.len() && !(start <= i < start + part.len()) ==> white_space(#[trigger] s[i])
}

proof fn lemma_front_dropped(s: Seq<char>, part: Seq<char>, start: int)
    requires
        s.len() > 0,
        white_space(s[0]),
        is_trimmed_at(s.skip(1), part, start),
    ensures
        is_trimmed_at(s, part, start + 1),
{
    let rest = s.skip(1);
    assert(part =~= s.subrange(start + 1, start + 1 + part.len()));
    assert forall|i: int|
        0 <= i < s.len() && !(start + 1 <= i < start + 1 + part.len()) implies white_space(
        #[trigger] s[i],
    ) by {
        if i > 0 {
            assert(s[i] == rest[i - 1]);
        }
    }
}

proof fn lemma_back_dropped(s: Seq<char>, part: Seq<char>, start: int)
    requires
        s.len() > 0,
        white_space(s.last()),
        is_trimmed_at(s.drop_last(), part, start),
    ensures
        is_trimmed_at(s, part, start),
{
    let rest = s.drop_last();
    assert(part =~= s.subrange(start, start + part.len()));
    assert forall|i: int| 0 <= i < s.len() && !(start <= i < start + part.len()) implies white_space(
        #[trigger] s[i],
    ) by {
        if i < s.len() - 1 {
            assert(s[i] == rest[i]);
        }
    }
}

proof fn lemma_trimmed(s: Seq<char>) -> (start: int)
    ensures
        trimmed(s).len() > 0 ==> !white_space(trimmed(s)[0]) && !white_space(trimmed(s).last()),
        is_trimmed_at(s, trimmed(s), start),
    decreases s.len(),
{
    if s.len() > 0 && white_space(s.first()) {
        let start = lemma_trimmed(s.skip(1));
        lemma_front_dropped(s, trimmed(s.skip(1)), start);
        start + 1
    } else if s.len() > 0 && white_space(s.last()) {
        let start = lemma_trimmed(s.drop_last());
        lemma_back_dropped(s, trimmed(s.drop_last()), start);
        start
    } else {
        assert(s =~= s.subrange(0, s.len() as int));
        0
    }
}

/// Some texts with a separator between each two.
pub open spec fn joined(list: Seq<Seq<char>>, separator: char) -> Seq<char>
    decreases list.len(),
{
    if list.len() == 0 {
        Seq::empty()
    } else if list.len() == 1 {
        list[0]
    } else {
        joined(list.drop_last(), separator).push(separator) + list.last()
    }
}

proof fn lemma_pieces_join(s: Seq<char>, separator: char)
    ensures
        pieces(s, separator).len() >= 1,
        joined(pieces(s, separator), separator) == s,
        forall|p: int, i: int|
            #![trigger pieces(s, separator)[p][i]]
            0 <= p < pieces(s, separator).len() && 0 <= i < pieces(s, separator)[p].len() ==> pieces(
                s,
                separator,
            )[p][i] != separator,
    decreases s.len(),
{
    let all = pieces(s, separator);
    if s.len() > 0 {
        let rest = s.drop_last();
        let before = pieces(rest, separator);
        lemma_pieces_join(rest, separator);
        if s.last() == separator {
            assert(all.drop_last() =~= before);
            assert(joined(all, separator) =~= s);
        } else {
            let last = before.last().push(s.last());
            assert(all =~= before.update(before.len() - 1, last));
            assert(all.drop_last() =~= before.drop_last());
            assert(all.last() == last);
            if all.len() == 1 {
                assert(joined(all, separator) =~= s);
            } else {
                assert(joined(all, separator) == joined(
                    before.drop_last(),
                    separator,
                ).push(separator) + last);
                assert(joined(all, separator) =~= joined(before, separator).push(s.last()));
                assert(joined(all, separator) =~= s);
            }
            assert forall|p: int, i: int|
                #![trigger all[p][i]]
                0 <= p < all.len() && 0 <= i < all[p].len() implies all[p][i] != separator by {
                if p < all.len() - 1 {
                    assert(all[p] == before[p]);
                    assert(before[p][i] != separator);
                } else if i < last.len() - 1 {
                    assert(all[p][i] == before[p][i]);
                }
            }
        }
    } else {
        assert(joined(all, separator) =~= s);
    }
}

/// The parts of a split text hold no separator, and joined by separators they are the text.
pub proof fn lemma_split_parts_join_again(chars: Vec<char>, separator: char, list: Vec<Vec<char>>)
    requires
        call_ensures(split, (&chars, separator), list),
    ensures
        list@.len() >= 1,
        joined(list@.map_values(|part: Vec<char>| part@), separator) == chars@,
        forall|p: int, i: int|
            #![trigger list@[p]@[i]]
            0 <= p < list@.len() && 0 <= i < list@[p]@.len() ==> list@[p]@[i] != separator,
{
    lemma_pieces_join(chars@, separator);
    let all = pieces(chars@, separator);
    assert(crate::text::texts(list@) == all);
    assert forall|p: int, i: int|
        #![trigger list@[p]@[i]]
        0 <= p < list@.len() && 0 <= i < list@[p]@.len() implies list@[p]@[i] != separator by {
        assert(crate::text::texts(list@)[p] == list@[p]@);
        assert(all[p][i] != separator);
    }
}

/// A character is found where it first stands.
pub proof fn lemma_find_is_first(chars: Vec<char>, c: char, index: usize)
    requires
        call_ensures(find, (&chars, c), index),
    ensures
        index <= chars@.len(),
        index < chars@.len() ==> chars@[index as int] == c,
        forall|i: int| 0 <= i < index ==> #[trigger] chars@[i] != c,
{
    lemma_first_index(chars@, c);
}

/// Text behind a separator is split as if it stood alone.
proof fn lemma_pieces_append(a: Seq<char>, b: Seq<char>, separator: char)
    ensures
        pieces(a + seq![separator] + b, separator) == pieces(a, separator) + pieces(b, separator),
    decreases b.len(),
{
    let s = a + seq![separator] + b;
    if b.len() == 0 {
        assert(s.drop_last() =~= a);
        assert(s.last() == separator);
        assert(pieces(s, separator) =~= pieces(a, separator) + pieces(b, separator));
    } else {
        let rest = b.drop_last();
        lemma_pieces_append(a, rest, separator);
        lemma_pieces_join(rest, separator);
        lemma_pieces_join(a, separator);
        assert(s.drop_last() =~= a + seq![separator] + rest);
        assert(s.last() == b.last());
        assert(pieces(s, separator) =~= pieces(a, separator) + pieces(b, separator));
    }
}

/// A text without separators is one piece.
proof fn lemma_single_piece(s: Seq<char>, separator: char)
    requires
        forall|i: int| 0 <= i < s.len() ==> #[trigger] s[i] != separator,
    ensures
        pieces(s, separator) == seq![s],
    decreases s.len(),
{
    if s.len() > 0 {
        let rest = s.drop_last();
        assert forall|i: int| 0 <= i < rest.len() implies #[trigger] rest[i] != separator by {
            assert(rest[i] == s[i]);
        }
        lemma_single_piece(rest, separator);
        assert(rest.push(s.last()) =~= s);
        assert(pieces(s, separator) =~= seq![s]);
    } else {
        assert(s =~= Seq::<char>::empty());
    }
}

proof fn lemma_listed_append(a: Seq<Seq<char>>, b: Seq<Seq<char>>, m: usize, n: usize, k: usize)
    ensures
        listed_rank(a + b, m, n, k) == (if listed_rank(a, m, n, k) == Ok::<Option<i32>, Error>(
            None,
        ) {
            listed_rank(b, m, n, k)
        } else {
            listed_rank(a, m, n, k)
        }),
    decreases a.len(),
{
    if a.len() == 0 {
        assert(a + b =~= b);
    } else {
        assert((a + b).skip(1) =~= a.skip(1) + b);
        assert((a + b)[0] == a[0]);
        lemma_listed_append(a.skip(1), b, m, n, k);
    }
}

/// A list of entries is looked up from the front: behind a part without an answer the rest
/// answers, and behind an answer, or an error, nothing else counts. Empty entries say nothing.
pub proof fn lemma_rank_list_is_read_from_the_front(
    whole: &str,
    front: &str,
    rest: &str,
    m: usize,
    n: usize,
    k: usize,
    all: Result<Option<i32>, Error>,
    first: Result<Option<i32>, Error>,
    second: Result<Option<i32>, Error>,
)
    requires
        whole@ == front@ + seq![';'] + rest@,
        call_ensures(parse_fp8_bf16_heuristic, (whole, m, n, k), all),
        call_ensures(parse_fp8_bf16_heuristic, (front, m, n, k), first),
        call_ensures(parse_fp8_bf16_heuristic, (rest, m, n, k), second),
    ensures
        first == Ok::<Option<i32>, Error>(None) ==> all == second,
        first != Ok::<Option<i32>, Error>(None) ==> all == first,
        front@.len() == 0 ==> first == Ok::<Option<i32>, Error>(None),
{
    lemma_pieces_append(front@, rest@, ';');
    lemma_listed_append(pieces(front@, ';'), pieces(rest@, ';'), m, n, k);
    if front@.len() == 0 {
        let one = pieces(front@, ';');
        assert(one[0].len() == 0);
        assert(listed_rank(one.skip(1), m, n, k) == Ok::<Option<i32>, Error>(None));
    }
}

/// The entry `M,N,K=rank` gives exactly its own shape its rank.
pub proof fn lemma_rank_entry_names_its_shape(
    entry: &str,
    rows: usize,
    cols: usize,
    depth: usize,
    rank: i32,
    m: usize,
    n: usize,
    k: usize,
    result: Result<Option<i32>, Error>,
)
    requires
        entry@ == decimal(rows as nat) + seq![','] + decimal(cols as nat) + seq![','] + decimal(
            depth as nat,
        ) + seq!['='] + signed_decimal(rank as int),
        call_ensures(parse_fp8_bf16_heuristic, (entry, m, n, k), result),
    ensures
        0 <= rank < 64 && m == rows && n == cols && k == depth ==> result == Ok::<
            Option<i32>,
            Error,
        >(Some(rank)),
        0 <= rank < 64 && !(m == rows && n == cols && k == depth) ==> result == Ok::<
            Option<i32>,
            Error,
        >(None),
        !(0 <= rank < 64) ==> result is Err,
{
    let (x, y, z) = (decimal(rows as nat), decimal(cols as nat), decimal(depth as nat));
    let r = signed_decimal(rank as int);
    let shape = x + seq![','] + y + seq![','] + z;
    let s = shape + seq!['='] + r;
    lemma_decimal_value(rows as nat);
    lemma_decimal_value(cols as nat);
    lemma_decimal_value(depth as nat);
    let size: nat = if rank < 0 {
        (-(rank as int)) as nat
    } else {
        rank as nat
    };
    lemma_decimal_value(size);
    assert((seq!['-'] + decimal(size)).skip(1) =~= decimal(size));
    assert(parsed_i32(r) == Some(rank as int));
    assert forall|i: int| 0 <= i < r.len() implies r[i] != ';' by {
        if rank < 0 && i > 0 {
            assert(r[i] == decimal(size)[i - 1]);
            assert(is_digit(r[i]));
        } else if rank >= 0 {
            assert(is_digit(r[i]));
        }
    }
    assert forall|i: int| 0 <= i < shape.len() implies shape[i] != '=' && shape[i] != ';' by {
        lemma_shape_chars(x, y, z, i);
    }
    assert(s =~= entry@);
    assert forall|i: int| 0 <= i < s.len() implies #[trigger] s[i] != ';' by {
        if i < shape.len() {
            assert(s[i] == shape[i]);
        } else if i > shape.len() {
            assert(s[i] == r[i - shape.len() - 1]);
        }
    }
    lemma_single_piece(s, ';');
    lemma_first_index(s, '=');
    let at = first_index(s, '=');
    assert(s[shape.len() as int] == '=');
    assert(at == shape.len()) by {
        if at < shape.len() {
            assert(s[at] == shape[at]);
        }
    }
    assert(s.take(at) =~= shape);
    assert(s.skip(at + 1) =~= r);
    lemma_three_pieces(x, y, z);
    let extents = pieces(shape, ',');
    assert(extents =~= seq![x, y, z]);
    assert(is_extent(extents[0]) && is_extent(extents[1]) && is_extent(extents[2]));
    assert(entry_rank(s, m, n, k) == (if !(0 <= rank < 64) {
        Err::<Option<i32>, Error>(
            Error::Number(crate::kernels::gemm::fp8::ENTRY_RANGE, rank as i64),
        )
    } else if m == rows && n == cols && k == depth {
        Ok(Some(rank))
    } else {
        Ok(None)
    }));
    let one = pieces(s, ';');
    assert(one[0] == s && s.len() > 0);
    assert(one.skip(1).len() == 0);
    assert(listed_rank(one.skip(1), m, n, k) == Ok::<Option<i32>, Error>(None));
}

proof fn lemma_shape_chars(x: Seq<char>, y: Seq<char>, z: Seq<char>, i: int)
    requires
        all_digits(x),
        all_digits(y),
        all_digits(z),
        0 <= i < (x + seq![','] + y + seq![','] + z).len(),
    ensures
        (x + seq![','] + y + seq![','] + z)[i] != '=',
        (x + seq![','] + y + seq![','] + z)[i] != ';',
{
    let s = x + seq![','] + y + seq![','] + z;
    if i < x.len() {
        assert(s[i] == x[i] && is_digit(x[i]));
    } else if i == x.len() {
    } else if i < x.len() + 1 + y.len() {
        assert(s[i] == y[i - x.len() - 1] && is_digit(y[i - x.len() - 1]));
    } else if i == x.len() + 1 + y.len() {
    } else {
        let j = i - x.len() - 2 - y.len();
        assert(s[i] == z[j] && is_digit(z[j]));
    }
}

proof fn lemma_three_pieces(x: Seq<char>, y: Seq<char>, z: Seq<char>)
    requires
        all_digits(x),
        all_digits(y),
        all_digits(z),
    ensures
        pieces(x + seq![','] + y + seq![','] + z, ',') == seq![x, y, z],
{
    assert forall|i: int| 0 <= i < x.len() implies #[trigger] x[i] != ',' by {
        assert(is_digit(x[i]));
    }
    assert forall|i: int| 0 <= i < y.len() implies #[trigger] y[i] != ',' by {
        assert(is_digit(y[i]));
    }
    assert forall|i: int| 0 <= i < z.len() implies #[trigger] z[i] != ',' by {
        assert(is_digit(z[i]));
    }
    lemma_single_piece(x, ',');
    lemma_single_piece(y, ',');
    lemma_single_piece(z, ',');
    lemma_pieces_append(x, y, ',');
    lemma_pieces_append(x + seq![','] + y, z, ',');
    assert(seq![x] + seq![y] + seq![z] =~= seq![x, y, z]);
}

/// The variable that holds the list: unset it says nothing, and what is no text is an error.
pub proof fn lemma_rank_variable_is_read(
    value: EnvironmentValue,
    m: usize,
    n: usize,
    k: usize,
    text: &str,
    result: Result<Option<i32>, Error>,
    parsed: Result<Option<i32>, Error>,
)
    requires
        call_ensures(configured_fp8_bf16_heuristic, (&value, m, n, k), result),
        call_ensures(parse_fp8_bf16_heuristic, (text, m, n, k), parsed),
        value matches EnvironmentValue::Text(held) ==> held@ == text@,
    ensures
        value is Unset ==> result == Ok::<Option<i32>, Error>(None),
        value is NotUnicode ==> result is Err,
        value is Text ==> result == parsed,
{
}

/// The CUDA runtime counts `1000 * major + 10 * minor + patch`, and the text has the numbers in
/// that order.
pub proof fn lemma_cuda_version_shows_its_parts(
    version: i32,
    result: Result<String, String>,
    major: nat,
    minor: nat,
    patch: nat,
)
    requires
        call_ensures(format_cuda_runtime_version, (version,), result),
        version == 1000 * major + 10 * minor + patch,
        minor < 100,
        patch < 10,
    ensures
        result is Ok <==> version > 0,
        result matches Ok(text) ==> text@ == dotted(major, minor, patch),
{
    lemma_dotted(major, minor, patch);
    lemma_cut(version as int, 100, 10, major as int, minor as int, patch as int);
}

/// cuBLAS counts `10000 * major + 100 * minor + patch`, in older releases `1000 * major`.
pub proof fn lemma_cublas_version_shows_its_parts(
    version: i32,
    result: Result<String, String>,
    major: nat,
    minor: nat,
    patch: nat,
)
    requires
        call_ensures(format_cublas_version, (version,), result),
        version >= 10_000 ==> version == 10_000 * major + 100 * minor + patch && minor < 100,
        version < 10_000 ==> version == 1000 * major + 100 * minor + patch && minor < 10,
        patch < 100,
    ensures
        result is Ok <==> version > 0,
        result matches Ok(text) ==> text@ == dotted(major, minor, patch),
{
    lemma_dotted(major, minor, patch);
    if version >= 10_000 {
        lemma_cut(version as int, 100, 100, major as int, minor as int, patch as int);
    } else {
        lemma_cut(version as int, 10, 100, major as int, minor as int, patch as int);
    }
}

proof fn lemma_cut(version: int, minors: int, patches: int, major: int, minor: int, patch: int)
    requires
        version == minors * patches * major + patches * minor + patch,
        0 <= patch < patches,
        0 <= minor < minors,
    ensures
        version / (minors * patches) == major,
        version % (minors * patches) / patches == minor,
        version % patches == patch,
{
    let unit = minors * patches;
    let rest = patches * minor + patch;
    assert(unit * major == major * unit && patches * minor == minor * patches) by (nonlinear_arith);
    assert(0 <= rest < unit) by (nonlinear_arith)
        requires
            rest == patches * minor + patch,
            unit == minors * patches,
            0 <= patch < patches,
            0 <= minor < minors,
    ;
    vstd::arithmetic::div_mod::lemma_fundamental_div_mod_converse(version, unit, major, rest);
    vstd::arithmetic::div_mod::lemma_fundamental_div_mod_converse(rest, patches, minor, patch);
    let steps = minors * major + minor;
    assert(version == steps * patches + patch) by (nonlinear_arith)
        requires
            version == minors * patches * major + patches * minor + patch,
            steps == minors * major + minor,
    ;
    vstd::arithmetic::div_mod::lemma_fundamental_div_mod_converse(version, patches, steps, patch);
}

/// The versions of both libraries are those that each reports.
pub proof fn lemma_library_versions_are_reported(
    cuda: i32,
    cublas: i32,
    result: Result<CudaLibraryVersions, String>,
    runtime: Result<String, String>,
    library: Result<String, String>,
)
    requires
        call_ensures(CudaLibraryVersions::from_reported, (cuda, cublas), result),
        call_ensures(format_cuda_runtime_version, (cuda,), runtime),
        call_ensures(format_cublas_version, (cublas,), library),
    ensures
        result is Ok <==> runtime is Ok && library is Ok,
        result matches Ok(versions) ==> {
            &&& runtime matches Ok(text) && versions.cuda@ == text@
            &&& library matches Ok(text) && versions.cublas@ == text@
        },
{
}

proof fn lemma_dotted(major: nat, minor: nat, patch: nat)
    ensures
        dotted_version(major as int, minor as int, patch as int) == dotted(major, minor, patch),
{
}

/// `major.minor`, or `major.minor.patch`.
pub open spec fn dotted(major: nat, minor: nat, patch: nat) -> Seq<char> {
    if patch == 0 {
        decimal(major) + seq!['.'] + decimal(minor)
    } else {
        decimal(major) + seq!['.'] + decimal(minor) + seq!['.'] + decimal(patch)
    }
}

} // verus!
