use dcr::build::language::{language_for_token, languages, Asm, Cxx, Language, LanguageId, C};

#[test]
fn tokens_resolve_to_languages() {
    assert_eq!(language_for_token("c").unwrap().id(), "c");
    assert_eq!(language_for_token("c++").unwrap().id(), "cxx");
    assert_eq!(language_for_token("cpp").unwrap().id(), "cxx");
    assert_eq!(language_for_token("cxx").unwrap().id(), "cxx");
    assert_eq!(language_for_token("asm").unwrap().id(), "asm");
    assert!(language_for_token("rust").is_none());
}

#[test]
fn languages_expose_expected_extensions() {
    assert_eq!(C.extensions(), &["c"]);
    assert_eq!(Cxx.extensions(), &["cpp", "cxx", "cc"]);
    assert_eq!(Asm.extensions(), &["s", "S", "asm"]);
}

#[test]
fn tokens_are_case_insensitive() {
    assert_eq!(language_for_token("C++"), Some(LanguageId::Cxx));
    assert_eq!(language_for_token("LLVM-IR"), Some(LanguageId::LlvmIr));
}

#[test]
fn languages_in_lookup_order() {
    let all = languages();
    assert_eq!(all[0].id(), "c");
    assert_eq!(all[3].id(), "llvm_ir");
}
