//! Which objects are compiled again.

use crate::nvcc_cache::{
    byte_lists, command_variables, compile_advance, compile_start, compiler_bytes, component,
    components, dependency_args, dependency_path, file_bytes, hash, identity_compilers,
    identity_variables, listed_words, optional_bytes, piece_components, presence, reusable, scan,
    signature_bytes, stamp_record, terminated, CompileCommand, CompileStage, Compiler, FileHash,
    Variable,
};
use crate::text::{first_index, lemma_first_index, pieces, white_space};
use vstd::prelude::*;

verus! {

/// The hash of nothing is the basis, and each further byte is mixed in and multiplied.
pub proof fn lemma_hash_takes_byte_by_byte(
    bytes: &[u8],
    more: &[u8],
    byte: u8,
    value: u128,
    next: u128,
)
    requires
        call_ensures(hash, (bytes,), value),
        call_ensures(hash, (more,), next),
        more@ == bytes@.push(byte),
    ensures
        bytes@.len() == 0 ==> value == 0x6c62272e07bb014262b821756295c58d,
        next == (value ^ (byte as u128)).wrapping_mul(0x0000000001000000000000000000013b),
{
    assert(more@.drop_last() =~= bytes@);
}

/// A signature tells the program, the directory and the compilers of a command: where all
/// else is the same and one of them changes, so does the signature.
pub proof fn lemma_signature_holds_the_setting(
    identity: Seq<u8>,
    command: CompileCommand,
    other_identity: Seq<u8>,
    other: CompileCommand,
    files: Seq<FileHash>,
)
    requires
        signature_bytes(identity, command, files) == signature_bytes(other_identity, other, files),
        byte_lists(command.args@) == byte_lists(other.args@),
        terminated(command.args@) == terminated(other.args@),
    ensures
        ({
            let same_identity = identity == other_identity;
            let same_directory = optional_bytes(command.directory) == optional_bytes(
                other.directory,
            );
            let same_variables = command_variables(command.variables@) == command_variables(
                other.variables@,
            );
            let same_program = command.program@ == other.program@;
            &&& same_directory && same_variables && same_program ==> same_identity
            &&& same_identity && same_variables && same_program ==> same_directory
            &&& same_identity && same_directory && same_program ==> same_variables
            &&& same_identity && same_directory && same_variables ==> same_program
        }),
{
    let tail = terminated(command.args@) + file_bytes(files);
    let (i, j) = (identity, other_identity);
    let (d, e) = (optional_bytes(command.directory), optional_bytes(other.directory));
    let (v, w) = (command_variables(command.variables@), command_variables(other.variables@));
    let (p, q) = (command.program@, other.program@);
    let x = signature_bytes(identity, command, files);
    let y = signature_bytes(other_identity, other, files);
    assert(x =~= i + d + seq![0u8] + v + p + seq![0u8] + tail);
    assert(y =~= j + e + seq![0u8] + w + q + seq![0u8] + tail);
    if d == e && v == w && p == q {
        assert(i.len() == j.len());
        assert(i =~= x.take(i.len() as int));
        assert(j =~= y.take(j.len() as int));
    }
    if i == j && v == w && p == q {
        assert(d.len() == e.len());
        assert(d =~= x.subrange(i.len() as int, (i.len() + d.len()) as int));
        assert(e =~= y.subrange(j.len() as int, (j.len() + e.len()) as int));
    }
    if i == j && d == e && p == q {
        let at = (i.len() + d.len() + 1) as int;
        assert(v.len() == w.len());
        assert(v =~= x.subrange(at, at + v.len()));
        assert(w =~= y.subrange(at, at + w.len()));
    }
    if i == j && d == e && v == w {
        let at = (i.len() + d.len() + 1 + v.len()) as int;
        assert(p.len() == q.len());
        assert(p =~= x.subrange(at, at + p.len()));
        assert(q =~= y.subrange(at, at + q.len()));
    }
}

/// A command's variable is told by its name, by whether it has a value and by the value: a
/// change in one variable is a change in the bytes.
pub proof fn lemma_signature_holds_each_variable(
    before: Seq<Variable>,
    variable: Variable,
    other: Variable,
)
    requires
        forall|i: int| 0 <= i < variable.name@.len() ==> #[trigger] variable.name@[i] != 0,
        forall|i: int| 0 <= i < other.name@.len() ==> #[trigger] other.name@[i] != 0,
        command_variables(before.push(variable)) == command_variables(before.push(other)),
    ensures
        variable.name@ == other.name@,
        variable.value is Some <==> other.value is Some,
        optional_bytes(variable.value) == optional_bytes(other.value),
{
    let head = command_variables(before);
    let (a, b) = (before.push(variable), before.push(other));
    assert(a.drop_last() =~= before && b.drop_last() =~= before);
    let (n, m) = (variable.name@, other.name@);
    let (s, t) = (presence(variable.value), presence(other.value));
    let (v, w) = (optional_bytes(variable.value), optional_bytes(other.value));
    let x = command_variables(a);
    let y = command_variables(b);
    assert(x =~= head + n + seq![0u8] + seq![s] + v + seq![0u8]);
    assert(y =~= head + m + seq![0u8] + seq![t] + w + seq![0u8]);
    let h = head.len() as int;
    assert(x[h + n.len()] == 0 && y[h + m.len()] == 0);
    if n.len() < m.len() {
        assert(y[h + n.len()] == m[n.len() as int]);
    } else if m.len() < n.len() {
        assert(x[h + m.len()] == n[m.len() as int]);
    }
    let k = n.len() as int;
    assert(n =~= x.subrange(h, h + k));
    assert(m =~= y.subrange(h, h + k));
    assert(x[h + k + 1] == s && y[h + k + 1] == t);
    assert(v =~= x.subrange(h + k + 2, h + k + 2 + v.len()));
    assert(w =~= y.subrange(h + k + 2, h + k + 2 + w.len()));
}

/// The identity of a cache tells what each compiler printed, and the value of each variable:
/// a change in the last one is a change in the bytes.
pub proof fn lemma_identity_holds_compilers_and_variables(
    compilers: Seq<Compiler>,
    compiler: Compiler,
    other: Compiler,
    variables: Seq<Variable>,
    variable: Variable,
    changed: Variable,
)
    requires
        compiler.name@ == other.name@,
        variable.name@ == changed.name@,
    ensures
        compiler_bytes(compilers.push(compiler)) == compiler_bytes(compilers.push(other))
            <==> optional_bytes(compiler.output) == optional_bytes(other.output),
        identity_variables(variables.push(variable)) == identity_variables(variables.push(changed))
            <==> (variable.value is Some <==> changed.value is Some) && optional_bytes(
            variable.value,
        ) == optional_bytes(changed.value),
        compiler_bytes(compilers) != compiler_bytes(compilers.push(compiler))
            || compiler.name@.len() == 0,
{
    let head = compiler_bytes(compilers);
    assert(compilers.push(compiler).drop_last() =~= compilers);
    assert(compilers.push(other).drop_last() =~= compilers);
    let name = compiler.name@;
    let (a, b) = (optional_bytes(compiler.output), optional_bytes(other.output));
    let (x, y) = (compiler_bytes(compilers.push(compiler)), compiler_bytes(compilers.push(other)));
    assert(x =~= head + name + a);
    assert(y =~= head + name + b);
    let n = head.len() + name.len();
    assert(a =~= x.skip(n as int));
    assert(b =~= y.skip(n as int));
    let front = identity_variables(variables);
    assert(variables.push(variable).drop_last() =~= variables);
    assert(variables.push(changed).drop_last() =~= variables);
    let label = variable.name@;
    let (s, t) = (presence(variable.value), presence(changed.value));
    let (v, w) = (optional_bytes(variable.value), optional_bytes(changed.value));
    let (p, q) = (
        identity_variables(variables.push(variable)),
        identity_variables(variables.push(changed)),
    );
    assert(p =~= front + label + seq![s] + v + seq![0u8]);
    assert(q =~= front + label + seq![t] + w + seq![0u8]);
    let m = (front.len() + label.len()) as int;
    if p == q {
        assert(p[m] == s && q[m] == t);
        assert(v =~= p.subrange(m + 1, m + 1 + v.len()));
        assert(w =~= q.subrange(m + 1, m + 1 + w.len()));
    }
    if compiler.name@.len() > 0 {
        assert(x.len() > head.len());
    }
}

/// A word as Make writes it: a backslash before every space and every backslash.
pub open spec fn escaped(word: Seq<char>) -> Seq<char>
    decreases word.len(),
{
    if word.len() == 0 {
        Seq::empty()
    } else {
        let c = word.last();
        if white_space(c) || c == '\\' {
            escaped(word.drop_last()).push('\\').push(c)
        } else {
            escaped(word.drop_last()).push(c)
        }
    }
}

/// Words behind spaces, each as Make writes it.
pub open spec fn written(words: Seq<Seq<char>>) -> Seq<char>
    decreases words.len(),
{
    if words.len() == 0 {
        Seq::empty()
    } else {
        written(words.drop_last()).push(' ') + escaped(words.last())
    }
}

proof fn lemma_scan_step(s: Seq<char>, c: char)
    ensures
        scan(s.push(c)) == ({
            let (words, word, open) = scan(s);
            if open {
                if c == '\n' {
                    (words, word, false)
                } else {
                    (words, word.push(c), false)
                }
            } else if c == '\\' {
                (words, word, true)
            } else if white_space(c) {
                if word.len() == 0 {
                    (words, word, false)
                } else {
                    (words.push(word), Seq::empty(), false)
                }
            } else {
                (words, word.push(c), false)
            }
        }),
{
    assert(s.push(c).drop_last() =~= s);
}

proof fn lemma_scan_word(s: Seq<char>, word: Seq<char>)
    requires
        !scan(s).2,
        forall|i: int| 0 <= i < word.len() ==> #[trigger] word[i] != '\n',
    ensures
        scan(s + escaped(word)) == (scan(s).0, scan(s).1 + word, false),
    decreases word.len(),
{
    if word.len() == 0 {
        assert(s + escaped(word) =~= s);
        assert(scan(s).1 + word =~= scan(s).1);
    } else {
        let before = word.drop_last();
        let c = word.last();
        assert(c == word[word.len() - 1]);
        assert forall|i: int| 0 <= i < before.len() implies #[trigger] before[i] != '\n' by {
            assert(before[i] == word[i]);
        }
        lemma_scan_word(s, before);
        let t = s + escaped(before);
        assert((scan(s).1 + before).push(c) =~= scan(s).1 + word);
        if white_space(c) || c == '\\' {
            lemma_scan_step(t, '\\');
            lemma_scan_step(t.push('\\'), c);
            assert(s + escaped(word) =~= t.push('\\').push(c));
        } else {
            lemma_scan_step(t, c);
            assert(s + escaped(word) =~= t.push(c));
        }
    }
}

proof fn lemma_scan_written(words: Seq<Seq<char>>)
    requires
        forall|w: int| 0 <= w < words.len() ==> (#[trigger] words[w]).len() > 0,
        forall|w: int, i: int|
            #![trigger words[w][i]]
            0 <= w < words.len() && 0 <= i < words[w].len() ==> words[w][i] != '\n',
    ensures
        !scan(written(words)).2,
        words.len() == 0 ==> scan(written(words)).0.len() == 0 && scan(written(words)).1.len() == 0,
        words.len() > 0 ==> scan(written(words)).0 == words.drop_last() && scan(written(words)).1
            == words.last(),
    decreases words.len(),
{
    if words.len() > 0 {
        let before = words.drop_last();
        let last = words.last();
        assert forall|w: int| 0 <= w < before.len() implies (#[trigger] before[w]).len() > 0 by {
            assert(before[w] == words[w]);
        }
        assert forall|w: int, i: int|
            #![trigger before[w][i]]
            0 <= w < before.len() && 0 <= i < before[w].len() implies before[w][i] != '\n' by {
            assert(before[w] == words[w]);
            assert(words[w][i] != '\n');
        }
        lemma_scan_written(before);
        let s = written(before);
        assert(white_space(' '));
        lemma_scan_step(s, ' ');
        let t = s.push(' ');
        assert forall|i: int| 0 <= i < last.len() implies #[trigger] last[i] != '\n' by {
            assert(words[words.len() - 1][i] != '\n');
        }
        lemma_scan_word(t, last);
        if before.len() > 0 {
            assert(before.drop_last().push(before.last()) =~= before);
            assert(before.last() == before[before.len() - 1]);
        } else {
            assert(scan(t).0 =~= before);
        }
        assert(scan(t).1.len() == 0);
        assert(scan(t).1 + last =~= last);
        assert(scan(t).0 =~= before);
    }
}

/// A list of dependencies is read as the words that were written, spaces and backslashes in
/// them included.
pub proof fn lemma_written_words_are_read(target: Seq<char>, words: Seq<Seq<char>>)
    requires
        forall|i: int| 0 <= i < target.len() ==> #[trigger] target[i] != ':',
        forall|w: int| 0 <= w < words.len() ==> (#[trigger] words[w]).len() > 0,
        forall|w: int, i: int|
            #![trigger words[w][i]]
            0 <= w < words.len() && 0 <= i < words[w].len() ==> words[w][i] != '\n',
    ensures
        listed_words(target + seq![':'] + written(words)) == Some(words),
{
    let text = target + seq![':'] + written(words);
    lemma_first_index(text, ':');
    let at = first_index(text, ':');
    assert(text[target.len() as int] == ':');
    assert(at == target.len()) by {
        if at < target.len() {
            assert(text[at] == target[at]);
        }
    }
    assert(text.skip(at + 1) =~= written(words));
    lemma_scan_written(words);
    if words.len() > 0 {
        assert(words.last() == words[words.len() - 1]);
        assert(words.drop_last().push(words.last()) =~= words);
    } else {
        assert(scan(written(words)).0 =~= words);
    }
}

/// A line that ends in a backslash goes on in the next one.
pub proof fn lemma_continued_lines_are_one(s: Seq<char>)
    requires
        !scan(s).2,
    ensures
        scan(s.push('\\').push('\n')) == scan(s),
{
    lemma_scan_step(s, '\\');
    lemma_scan_step(s.push('\\'), '\n');
}

/// What a listing runs: the arguments in their order, but `-c`, and `-o` with the file that
/// follows it; at the end `-M -MT` and the name of the target.
pub proof fn lemma_listing_drops_the_object(
    args: Vec<Vec<u8>>,
    rest: Vec<Vec<u8>>,
    result: Vec<Vec<u8>>,
    listing: Vec<Vec<u8>>,
    dropped: int,
)
    requires
        call_ensures(dependency_args, (&args,), result),
        call_ensures(dependency_args, (&rest,), listing),
        0 <= dropped <= args@.len(),
        rest@ == args@.skip(dropped),
    ensures
        args@.len() == 0 ==> byte_lists(result@) == seq![
            seq![45u8, 77u8],
            seq![45u8, 77u8, 84u8],
            seq![97u8, 112, 120, 105, 110, 102, 95, 111, 98, 106, 101, 99, 116],
        ],
        dropped == 1 && args@[0]@ == seq![45u8, 99u8] ==> byte_lists(result@) == byte_lists(
            listing@,
        ),
        dropped == 2 && args@[0]@ == seq![45u8, 111u8] ==> byte_lists(result@) == byte_lists(
            listing@,
        ),
        dropped == 1 && args@[0]@ != seq![45u8, 99u8] && args@[0]@ != seq![45u8, 111u8]
            ==> byte_lists(result@) == seq![args@[0]@] + byte_lists(listing@),
{
    assert(seq![45u8, 99u8][1] != seq![45u8, 111u8][1]);
}

/// A relative dependency is looked for below the command's directory, else below the working
/// directory, one slash between them; an absolute one where it is.
pub proof fn lemma_relative_paths_have_a_base(
    path: Vec<u8>,
    directory: Option<Vec<u8>>,
    working: Option<Vec<u8>>,
    result: Option<Vec<u8>>,
    base: Vec<u8>,
)
    requires
        call_ensures(dependency_path, (&path, &directory, &working), result),
        directory matches Some(directory) ==> base@ == directory@,
        directory is None ==> (working matches Some(working) ==> base@ == working@),
    ensures
        path@.len() > 0 && path@[0] == 47 ==> (result matches Some(found) && found@ == path@),
        !(path@.len() > 0 && path@[0] == 47) ==> (result is Some <==> working is Some),
        !(path@.len() > 0 && path@[0] == 47) ==> (result matches Some(found) ==> {
            &&& found@.len() >= base@.len() + path@.len()
            &&& found@.take(base@.len() as int) == base@
            &&& found@.skip(found@.len() - path@.len()) == path@
            &&& base@.len() > 0 && base@.last() != 47 ==> found@.len() == base@.len() + 1
                + path@.len() && found@[base@.len() as int] == 47
            &&& base@.len() == 0 || base@.last() == 47 ==> found@.len() == base@.len()
                + path@.len()
        }),
{
    if !(path@.len() > 0 && path@[0] == 47) {
        if let Some(found) = result {
            assert(found@.take(base@.len() as int) =~= base@);
            assert(found@.skip(found@.len() - path@.len()) =~= path@);
        }
    }
}

/// Paths with a slash at the end, or with a `.` below another component, name the same file.
pub proof fn lemma_paths_by_components(path: Seq<char>)
    requires
        path.len() > 0,
    ensures
        components(path.push('/')) == components(path),
        components(path.push('/').push('.')) == components(path),
{
    let list = pieces(path, '/');
    let slashed = path.push('/');
    assert(slashed.drop_last() =~= path);
    let more = pieces(slashed, '/');
    assert(more == list.push(Seq::empty()));
    lemma_pieces_some(path);
    lemma_same_prefix(list, more, list.len() as int);
    assert(component(more[list.len() as int], list.len() as int) is None);
    assert(slashed[0] == path[0]);
    let dotted = slashed.push('.');
    assert(dotted.drop_last() =~= slashed);
    let most = pieces(dotted, '/');
    let dot = Seq::<char>::empty().push('.');
    assert(dot =~= seq!['.']);
    assert(most =~= list.push(dot));
    lemma_same_prefix(list, most, list.len() as int);
    assert(component(most[list.len() as int], list.len() as int) is None);
    assert(dotted[0] == path[0]);
}

proof fn lemma_pieces_some(s: Seq<char>)
    ensures
        pieces(s, '/').len() >= 1,
    decreases s.len(),
{
    if s.len() > 0 {
        lemma_pieces_some(s.drop_last());
    }
}

proof fn lemma_same_prefix(list: Seq<Seq<char>>, more: Seq<Seq<char>>, count: int)
    requires
        0 <= count <= list.len(),
        count <= more.len(),
        forall|i: int| 0 <= i < count ==> list[i] == more[i],
    ensures
        piece_components(list, count) == piece_components(more, count),
    decreases count,
{
    if count > 0 {
        lemma_same_prefix(list, more, count - 1);
    }
}

/// A compilation is left out where the object can be reused. Else it removes the stamp, then
/// runs, then stamps where it has a fingerprint; a failure ends it.
pub proof fn lemma_compilation_runs_in_order(
    reuse: bool,
    start: CompileStage,
    stage: CompileStage,
    fingerprinted: bool,
    succeeded: bool,
    next: CompileStage,
)
    requires
        call_ensures(compile_start, (reuse,), start),
        call_ensures(compile_advance, (stage, fingerprinted, succeeded), next),
    ensures
        start == CompileStage::Done <==> reuse,
        start == CompileStage::RemoveStamp <==> !reuse,
        stage == CompileStage::Done || stage == CompileStage::Failed ==> next == stage,
        stage != CompileStage::Done && !succeeded ==> next == CompileStage::Failed,
        stage == CompileStage::RemoveStamp && succeeded ==> next == CompileStage::Run,
        stage == CompileStage::Run && succeeded ==> next == (if fingerprinted {
            CompileStage::WriteStamp
        } else {
            CompileStage::Done
        }),
        stage == CompileStage::WriteStamp && succeeded ==> next == CompileStage::Done,
{
}

/// An object is reused exactly where its stamp is the record of the fingerprint and of the
/// object as it is.
pub proof fn lemma_reuse_needs_the_record(
    fingerprint: Option<u128>,
    record: Option<&str>,
    object: Option<&[u8]>,
    key: u128,
    bytes: &[u8],
    expected: String,
    reuse: bool,
)
    requires
        call_ensures(reusable, (fingerprint, record, object), reuse),
        call_ensures(stamp_record, (key, bytes), expected),
        fingerprint matches Some(found) ==> found == key,
        object matches Some(found) ==> found@ == bytes@,
    ensures
        reuse <==> fingerprint is Some && object is Some && (record matches Some(text) && text@
            == expected@),
{
}

/// The given compiler and the host compiler that it calls belong to the identity.
pub proof fn lemma_both_compilers_count(nvcc: &str, names: Vec<&str>)
    requires
        call_ensures(identity_compilers, (nvcc,), names),
    ensures
        names@.len() == 2,
        names@[0]@ == nvcc@,
        names@[1]@ == seq!['g', '+', '+'],
{
    reveal_strlit("g++");
    assert("g++"@ =~= seq!['g', '+', '+']);
}

} // verus!
