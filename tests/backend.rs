use std::collections::HashSet;

use luisa_compute::derive::{AttrInfo, Compiler};
use luisa_compute::jit::{cache_paths, finish_compile, paths_for_hash, plan_compile, CacheAction};

const EMPTY_SHA256: &str = "e3b0c44298fc1c149afbf4c8996fb92427ae41e4649b934ca495991b7852b855";

#[test]
fn cache_key_is_sha256_of_source() {
    let p = cache_paths("/opt/app", "", false);
    assert_eq!(p.hash, EMPTY_SHA256);
    let q = cache_paths("/opt/app", "int main() {}", false);
    assert_ne!(q.hash, p.hash);
    assert_eq!(q.hash.len(), 64);
}

#[test]
fn cache_layout() {
    let p = paths_for_hash("/opt/app", "abc", false);
    assert_eq!(p.build_dir, "/opt/app/.jit/abc");
    assert_eq!(p.source_file, "/opt/app/.jit/abc/abc.cc");
    assert_eq!(p.target_lib, "abc.so");
    assert_eq!(p.lib_path, "/opt/app/.jit/abc/abc.so");
    let w = paths_for_hash("C:/app", "abc", true);
    assert_eq!(w.target_lib, "abc.dll");
    assert_eq!(w.lib_path, "C:/app/.jit/abc/abc.dll");
}

#[test]
fn compile_plan_and_flags() {
    let p = paths_for_hash("/x", "h", false);
    match plan_compile(&p, false) {
        CacheAction::Compile { build_dir, source_file, args, lib_path } => {
            assert_eq!(build_dir, "/x/.jit/h");
            assert_eq!(source_file, "/x/.jit/h/h.cc");
            assert_eq!(lib_path, "/x/.jit/h/h.so");
            assert_eq!(
                args,
                vec!["-O3", "-std=c++17", "-fno-math-errno", "-fPIC", "-shared", "/x/.jit/h/h.cc", "-o", "h.so"]
            );
        }
        CacheAction::Load(_) => panic!("nothing is cached yet"),
    }
    assert!(matches!(plan_compile(&p, true), CacheAction::Load(path) if path == "/x/.jit/h/h.so"));
}

#[test]
fn compile_failure_carries_output() {
    let p = paths_for_hash("/x", "h", false);
    assert_eq!(finish_compile(&p, true, String::new()).ok(), Some("/x/.jit/h/h.so".to_string()));
    let e = finish_compile(&p, false, "error: expected ';'".to_string()).err().unwrap();
    assert_eq!(e.output, "error: expected ';'");
}

#[test]
fn cache_idempotence() {
    let source = "extern \"C\" void kernel() {}";
    let mut disk: HashSet<String> = HashSet::new();
    let mut compiler_runs = 0;
    let mut results = Vec::new();
    for _ in 0..2 {
        let p = cache_paths("/tmp/app", source, false);
        let out = match plan_compile(&p, disk.contains(&p.lib_path)) {
            CacheAction::Load(path) => path,
            CacheAction::Compile { lib_path, .. } => {
                compiler_runs += 1;
                disk.insert(lib_path.clone());
                finish_compile(&p, true, String::new()).ok().unwrap()
            }
        };
        results.push(out);
    }
    assert_eq!(compiler_runs, 1);
    assert_eq!(results[0], results[1]);
}

fn attr(path: &str, tokens: &str) -> AttrInfo {
    AttrInfo { path: path.to_string(), tokens: tokens.to_string() }
}

#[test]
fn derive_helpers() {
    let inside = Compiler::new(true);
    let outside = Compiler::new(false);
    assert_eq!(inside.crate_path(), "crate::lang");
    assert_eq!(outside.crate_path(), "luisa_compute::lang");
    assert!(inside.check_repr_c(&vec![attr("derive", "(Clone)"), attr("repr", "(C)")]));
    assert!(!inside.check_repr_c(&vec![attr("repr", "(u8)")]));
    assert!(!inside.check_repr_c(&vec![]));
    assert_eq!(inside.proxy_names("Point"), ("PointExpr".to_string(), "PointVar".to_string()));
}
