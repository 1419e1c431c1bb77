use apxinf_cuda::nvcc_cache::{
    compile_advance, compile_start, dependencies, dependency_args, dependency_path, hash,
    identity_compilers, identity_names, reusable,
    stamp_record, CompileCommand, CompileStage, Compiler, FileHash, NvccCache, Variable,
};

#[test]
fn parses_continuations_and_spaces() {
    assert_eq!(
        dependencies("target: /a.cu \\\n /some\\ path/a.h /a.cu\n"),
        Some(vec![
            String::from("/a.cu"),
            String::from("/some path/a.h")
        ])
    );
}

#[test]
fn rejects_missing_dependencies() {
    assert_eq!(dependencies("target:"), None);
    assert_eq!(dependencies("invalid"), None);
}

#[test]
fn changes_are_visible_in_content_hash() {
    assert_ne!(hash(b"header-v1"), hash(b"header-v2"));
}

#[test]
fn hashes_are_fnv_1a() {
    assert_eq!(hash(b""), 0x6c62272e07bb014262b821756295c58d);
    // One byte: (basis ^ 0x61) * prime, modulo 2^128.
    assert_eq!(
        hash(b"a"),
        (0x6c62272e07bb014262b821756295c58du128 ^ 0x61)
            .wrapping_mul(0x0000000001000000000000000000013b)
    );
    assert_eq!(hash(b"a"), 0xd228cb696f1a8caf78912b704e4a8964);
}

#[test]
fn dependencies_are_ordered_by_component() {
    assert_eq!(
        dependencies("o: b/a.h a/z.h ./c.h ../d.h /r.h a.h"),
        Some(vec![
            String::from("/r.h"),
            String::from("./c.h"),
            String::from("../d.h"),
            String::from("a/z.h"),
            String::from("a.h"),
            String::from("b/a.h"),
        ])
    );
}

#[test]
fn equal_paths_keep_the_first_spelling() {
    assert_eq!(
        dependencies("o: a//b.h a/b.h a/./b.h"),
        Some(vec![String::from("a//b.h")])
    );
}

#[test]
fn a_trailing_backslash_is_invalid() {
    assert_eq!(dependencies("o: a.h \\"), None);
    assert_eq!(dependencies("o: a\\:b.h"), Some(vec![String::from("a:b.h")]));
}

fn bytes(text: &str) -> Vec<u8> {
    text.as_bytes().to_vec()
}

fn command(args: &[&str]) -> CompileCommand {
    CompileCommand {
        directory: None,
        variables: vec![],
        program: bytes("nvcc"),
        args: args.iter().map(|arg| bytes(arg)).collect(),
    }
}

#[test]
fn the_listing_command_drops_the_object() {
    let args = command(&["-c", "source.cu", "-o", "kernel.o", "-O3"]).args;
    let expected: Vec<Vec<u8>> = ["source.cu", "-O3", "-M", "-MT", "apxinf_object"]
        .iter()
        .map(|arg| bytes(arg))
        .collect();
    assert_eq!(dependency_args(&args), expected);
    // An output flag without a file is dropped too.
    let expected: Vec<Vec<u8>> = ["-M", "-MT", "apxinf_object"]
        .iter()
        .map(|arg| bytes(arg))
        .collect();
    assert_eq!(dependency_args(&vec![bytes("-o")]), expected);
}

#[test]
fn relative_dependencies_lie_below_the_directory() {
    let here = Some(bytes("/work"));
    let there = Some(bytes("/build/"));
    assert_eq!(
        dependency_path(&bytes("a.h"), &None, &here),
        Some(bytes("/work/a.h"))
    );
    assert_eq!(
        dependency_path(&bytes("a.h"), &there, &here),
        Some(bytes("/build/a.h"))
    );
    assert_eq!(
        dependency_path(&bytes("/usr/a.h"), &there, &None),
        Some(bytes("/usr/a.h"))
    );
    assert_eq!(dependency_path(&bytes("a.h"), &there, &None), None);
}

#[test]
fn the_identity_lists_compilers_and_variables() {
    let cache = NvccCache::new(
        &vec![
            Compiler {
                name: bytes("nvcc"),
                output: Some(bytes("v1")),
            },
            Compiler {
                name: bytes("g++"),
                output: None,
            },
        ],
        &vec![
            Variable {
                name: bytes("PATH"),
                value: Some(bytes("/bin")),
            },
            Variable {
                name: bytes("CC"),
                value: None,
            },
        ],
    );
    assert_eq!(
        cache.identity,
        b"apxinf-nvcc-object-cache-v2\0nvccv1g++PATH\x01/bin\0CC\0\0".to_vec()
    );
}

#[test]
fn the_fingerprint_hashes_the_whole_signature() {
    let cache = NvccCache::new(&vec![], &vec![]);
    let mut request = command(&["-c", "a.cu"]);
    request.directory = Some(bytes("/d"));
    request.variables = vec![Variable {
        name: bytes("X"),
        value: Some(bytes("1")),
    }];
    let files = vec![FileHash {
        path: bytes("/a.cu"),
        content: 0x0102,
    }];
    let mut signature = b"apxinf-nvcc-object-cache-v2\0/d\0X\0\x011\0nvcc\0-c\0a.cu\0/a.cu\0".to_vec();
    signature.extend_from_slice(&0x0102u128.to_le_bytes());
    assert_eq!(cache.fingerprint(&request, &files), hash(&signature));
}

#[test]
fn a_file_is_hashed_once() {
    let mut cache = NvccCache::new(&vec![], &vec![]);
    assert_eq!(cache.content(&bytes("/a.h")), None);
    let first = cache.remember(bytes("/a.h"), b"header-v1");
    assert_eq!(first, hash(b"header-v1"));
    assert_eq!(cache.content(&bytes("/a.h")), Some(first));
    assert_eq!(cache.content(&bytes("/b.h")), None);
}

#[test]
fn only_a_matching_stamp_allows_reuse() {
    let record = stamp_record(7, b"object");
    assert_eq!(
        record,
        format!("{:032x} {:032x}\n", 7u128, hash(b"object"))
    );
    assert!(reusable(Some(7), Some(&record), Some(b"object")));
    assert!(!reusable(Some(8), Some(&record), Some(b"object")));
    assert!(!reusable(Some(7), Some(&record), Some(b"corrupt")));
    assert!(!reusable(None, Some(&record), Some(b"object")));
    assert!(!reusable(Some(7), None, Some(b"object")));
    assert!(!reusable(Some(7), Some(&record), None));
}

#[test]
fn a_failed_compilation_leaves_no_stamp() {
    assert_eq!(compile_start(true), CompileStage::Done);
    let stage = compile_start(false);
    assert_eq!(stage, CompileStage::RemoveStamp);
    let stage = compile_advance(stage, true, true);
    assert_eq!(stage, CompileStage::Run);
    assert_eq!(compile_advance(stage, true, false), CompileStage::Failed);
    assert_eq!(compile_advance(stage, false, true), CompileStage::Done);
    let stage = compile_advance(stage, true, true);
    assert_eq!(stage, CompileStage::WriteStamp);
    assert_eq!(compile_advance(stage, true, true), CompileStage::Done);
}

#[test]
fn a_missing_dependency_list_compiles_without_a_stamp() {
    let record = stamp_record(7, b"object");
    let stage = compile_start(reusable(None, Some(&record), Some(b"object")));
    assert_eq!(stage, CompileStage::RemoveStamp);
    let stage = compile_advance(stage, false, true);
    assert_eq!(stage, CompileStage::Run);
    assert_eq!(compile_advance(stage, false, true), CompileStage::Done);
    assert_eq!(compile_advance(stage, false, false), CompileStage::Failed);
}

#[test]
fn every_changed_byte_changes_the_hash() {
    let source = b"__global__ void f() {}";
    for index in 0..source.len() {
        for bit in 0..8 {
            let mut changed = source.to_vec();
            changed[index] ^= 1 << bit;
            assert_ne!(hash(&changed), hash(source));
        }
    }
}

#[test]
fn a_changed_file_changes_the_fingerprint() {
    let cache = NvccCache::new(&vec![], &vec![]);
    let request = command(&["-c", "a.cu"]);
    let files = |header: &[u8]| {
        vec![
            FileHash {
                path: bytes("/a.cu"),
                content: hash(b"source"),
            },
            FileHash {
                path: bytes("/a.h"),
                content: hash(header),
            },
        ]
    };
    let first = cache.fingerprint(&request, &files(b"header-v1"));
    assert_eq!(first, cache.fingerprint(&request, &files(b"header-v1")));
    assert_ne!(first, cache.fingerprint(&request, &files(b"header-v2")));
}

#[test]
fn one_file_has_many_spellings() {
    let mut cache = NvccCache::new(&vec![], &vec![]);
    let value = cache.remember(bytes("a/b"), b"header");
    for spelling in ["a/./b", "a//b", "a/b/"] {
        assert_eq!(cache.content(&bytes(spelling)), Some(value));
    }
    for other in ["./a/b", "/a/b", "a/c/../b", "a/bb"] {
        assert_eq!(cache.content(&bytes(other)), None);
    }
    let newer = cache.remember(bytes("a//b"), b"other header");
    assert_eq!(cache.content(&bytes("a/b")), Some(newer));
    assert_eq!(cache.content(&vec![b'a', b'/', 0xff]), None);
}

#[test]
fn only_changes_compile_again() {
    let cache = NvccCache::new(&vec![], &vec![]);
    let file = |content: &[u8]| {
        vec![FileHash {
            path: bytes("/a.cu"),
            content: hash(content),
        }]
    };
    let first = cache.fingerprint(&command(&["-O2", "a.cu"]), &file(b"v1"));
    let stamp = stamp_record(first, b"object");
    let stage = |args: &[&str], content: &[u8], object: &[u8]| {
        let key = cache.fingerprint(&command(args), &file(content));
        compile_start(reusable(Some(key), Some(&stamp), Some(object)))
    };
    assert_eq!(stage(&["-O2", "a.cu"], b"v1", b"object"), CompileStage::Done);
    for args in [&["-O3", "a.cu"][..], &["-O2", "a.", "cu"], &["-O2a.cu"], &["-O2"]] {
        assert_eq!(stage(args, b"v1", b"object"), CompileStage::RemoveStamp);
    }
    assert_eq!(stage(&["-O2", "a.cu"], b"v2", b"object"), CompileStage::RemoveStamp);
    assert_eq!(stage(&["-O2", "a.cu"], b"v1", b"damaged"), CompileStage::RemoveStamp);
    // A header that is added, dropped or renamed counts too.
    let mut more = file(b"v1");
    more.push(FileHash {
        path: bytes("/a.h"),
        content: hash(b"header"),
    });
    let mut renamed = file(b"v1");
    renamed[0].path = bytes("/b.cu");
    for files in [more, renamed, vec![]] {
        let key = cache.fingerprint(&command(&["-O2", "a.cu"]), &files);
        assert!(!reusable(Some(key), Some(&stamp), Some(b"object")));
    }
}

#[test]
fn the_identity_heeds_variables_and_compilers() {
    let names = identity_names();
    assert_eq!(names.len(), 14);
    assert_eq!((names[0], names[13]), ("PATH", "SOURCE_DATE_EPOCH"));
    assert_eq!(identity_compilers("nvcc"), vec!["nvcc", "g++"]);
}
