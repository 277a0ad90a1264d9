//! Built-in build profiles and the default project source.
use vstd::prelude::*;

verus! {

/// The profile used when none is given.
pub const PROFILE: &'static str = "debug";

/// The `main.c` written into new projects.
pub const FILE_MAIN_C: &'static str = "#include <stdio.h>\n\nint main(void) {\n    printf(\"Hello World!\\n\");\n    return 0;\n}\n";

/// The profiles that have built-in compiler flags.
pub open spec fn is_profile(p: Seq<char>) -> bool {
    p == "release"@ || p == "debug"@
}

/// The built-in flags of each profile.
pub open spec fn profile_flags(p: Seq<char>) -> Option<Seq<Seq<char>>> {
    if p == "release"@ {
        Some(seq!["-O3"@, "-DNDEBUG"@, "-march=native"@])
    } else if p == "debug"@ {
        Some(seq!["-O0"@, "-g"@, "-Wall"@, "-Wextra"@, "-fno-omit-frame-pointer"@, "-DDEBUG"@])
    } else {
        None
    }
}

/// The string views of a slice of string slices.
pub open spec fn str_views(v: Seq<&str>) -> Seq<Seq<char>> {
    v.map_values(|s: &str| s@)
}

/// Compiler flags of a built-in profile, or `None` for an unknown profile.
pub fn flags(profile: &str) -> (r: Option<Vec<&'static str>>)
    ensures
        match r {
            Some(v) => profile_flags(profile@) == Some(str_views(v@)),
            None => profile_flags(profile@) is None,
        },
{
    if crate::text::str_eq(profile, "release") {
        let v = vec!["-O3", "-DNDEBUG", "-march=native"];
        assert(str_views(v@) =~= seq!["-O3"@, "-DNDEBUG"@, "-march=native"@]);
        Some(v)
    } else if crate::text::str_eq(profile, "debug") {
        let v = vec!["-O0", "-g", "-Wall", "-Wextra", "-fno-omit-frame-pointer", "-DDEBUG"];
        assert(str_views(v@) =~= seq!["-O0"@, "-g"@, "-Wall"@, "-Wextra"@, "-fno-omit-frame-pointer"@, "-DDEBUG"@]);
        Some(v)
    } else {
        None
    }
}

/// Whether `profile` names a built-in profile.
pub fn is_profile_exec(profile: &str) -> (r: bool)
    ensures
        r == is_profile(profile@),
{
    crate::text::str_eq(profile, "release") || crate::text::str_eq(profile, "debug")
}

} // verus!
