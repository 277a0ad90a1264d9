//! Qt code generation: which generator handles a file, and its command line
//! (`uic` for forms, `rcc` for resources, `moc` for headers declaring
//! `Q_OBJECT`).
use vstd::prelude::*;

use crate::build::artifact::ToolCommand;
use crate::paths::{extension, file_stem, join};
use crate::text::{has_prefix, is_whitespace, push_str_item, starts_with, str_eq, views};

verus! {

/// The Qt generators.
#[derive(Debug, Clone, Copy, PartialEq, Eq, Structural)]
pub enum QtTool {
    Uic,
    Rcc,
    Moc,
}

/// The generator for a file, by its extension: `ui` forms, `qrc` resources
/// and `h`/`hpp`/`hxx` headers.
pub open spec fn qt_tool_for_spec(file: Seq<char>) -> Option<QtTool> {
    match extension(file) {
        Some(e) => if e == "ui"@ {
            Some(QtTool::Uic)
        } else if e == "qrc"@ {
            Some(QtTool::Rcc)
        } else if e == "h"@ || e == "hpp"@ || e == "hxx"@ {
            Some(QtTool::Moc)
        } else {
            None
        },
        None => None,
    }
}

/// The generator that handles a file, if any.
pub fn qt_tool_for(file: &str) -> (r: Option<QtTool>)
    ensures
        r == qt_tool_for_spec(file@),
{
    match crate::paths::extension_exec(file) {
        Some(e) => {
            let e = e.as_str();
            if str_eq(e, "ui") {
                Some(QtTool::Uic)
            } else if str_eq(e, "qrc") {
                Some(QtTool::Rcc)
            } else if str_eq(e, "h") || str_eq(e, "hpp") || str_eq(e, "hxx") {
                Some(QtTool::Moc)
            } else {
                None
            }
        },
        None => None,
    }
}

/// The whitespace-separated words of `s` from position `i` on, `cur` being the
/// word read so far.
pub open spec fn words_from(s: Seq<char>, i: int, done: Seq<Seq<char>>, cur: Seq<char>) -> Seq<Seq<char>>
    decreases s.len() - i,
{
    if i < 0 || i >= s.len() {
        if cur.len() > 0 {
            done.push(cur)
        } else {
            done
        }
    } else if is_whitespace(s[i]) {
        words_from(s, i + 1, if cur.len() > 0 {
            done.push(cur)
        } else {
            done
        }, Seq::empty())
    } else {
        words_from(s, i + 1, done, cur.push(s[i]))
    }
}

/// `str::split_whitespace`.
pub open spec fn words(s: Seq<char>) -> Seq<Seq<char>> {
    words_from(s, 0, Seq::empty(), Seq::empty())
}

/// The include and define flags among `flags`, in order.
pub open spec fn include_define_flags(flags: Seq<Seq<char>>) -> Seq<Seq<char>>
    decreases flags.len(),
{
    if flags.len() == 0 {
        Seq::empty()
    } else {
        let rest = include_define_flags(flags.drop_last());
        let f = flags.last();
        if has_prefix(f, "-I"@) || has_prefix(f, "-D"@) {
            rest.push(f)
        } else {
            rest
        }
    }
}

/// Splits a text at whitespace.
pub fn split_words(s: &str) -> (r: Vec<String>)
    ensures
        views(r@) == words(s@),
{
    let v = crate::text::chars_of(s);
    let mut out: Vec<String> = Vec::new();
    let mut cur: Vec<char> = Vec::new();
    let mut i: usize = 0;
    assert(views(out@) =~= Seq::<Seq<char>>::empty());
    while i < v.len()
        invariant
            v@ == s@,
            i <= v@.len(),
            words(s@) == words_from(s@, i as int, views(out@), cur@),
        decreases v.len() - i,
    {
        if crate::text::is_whitespace_exec(v[i]) {
            if cur.len() > 0 {
                let w = crate::text::string_of(&cur);
                let ghost before = views(out@);
                out.push(w);
                assert(views(out@) =~= before.push(cur@));
            }
            cur = Vec::new();
            assert(cur@ =~= Seq::<char>::empty());
        } else {
            cur.push(v[i]);
        }
        i = i + 1;
    }
    if cur.len() > 0 {
        let w = crate::text::string_of(&cur);
        let ghost before = views(out@);
        out.push(w);
        assert(views(out@) =~= before.push(cur@));
    }
    out
}

/// The `-I` and `-D` flags of a `pkg-config --cflags` output, handed to `moc`.
pub fn moc_flags(pkg_cflags: &str) -> (r: Vec<String>)
    ensures
        views(r@) == include_define_flags(words(pkg_cflags@)),
{
    let ws = split_words(pkg_cflags);
    let ghost w = views(ws@);
    let mut out: Vec<String> = Vec::new();
    let mut i: usize = 0;
    assert(views(out@) =~= include_define_flags(w.take(0)));
    while i < ws.len()
        invariant
            w == views(ws@),
            i <= ws@.len(),
            views(out@) == include_define_flags(w.take(i as int)),
        decreases ws.len() - i,
    {
        let f = ws[i].as_str();
        assert(w.take(i + 1).drop_last() =~= w.take(i as int));
        assert(w.take(i + 1).last() == f@);
        if starts_with(f, "-I") || starts_with(f, "-D") {
            push_str_item(&mut out, f);
        }
        i = i + 1;
    }
    assert(w.take(ws@.len() as int) =~= w);
    out
}

/// `-I <dir>` for each directory.
pub open spec fn include_pairs(dirs: Seq<Seq<char>>) -> Seq<Seq<char>>
    decreases dirs.len(),
{
    if dirs.len() == 0 {
        Seq::empty()
    } else {
        include_pairs(dirs.drop_last()) + seq!["-I"@, dirs.last()]
    }
}

/// The arguments of a generator run on `file`, writing into `qt_dir`:
/// `uic <file> -o <dir>/ui_<stem>.h`, `rcc <file> -name <stem> -o
/// <dir>/qrc_<stem>.cpp`, and `moc <flags> -I <each include path and dir>
/// <file> -o <dir>/moc_<stem>.cpp`.
pub open spec fn qt_args_spec(
    tool: QtTool,
    file: Seq<char>,
    qt_dir: Seq<char>,
    flags: Seq<Seq<char>>,
    includes: Seq<Seq<char>>,
) -> Seq<Seq<char>> {
    let stem = file_stem(file)->Some_0;
    match tool {
        QtTool::Uic => seq![file, "-o"@, join(qt_dir, "ui_"@ + stem + ".h"@)],
        QtTool::Rcc => seq![file, "-name"@, stem, "-o"@, join(qt_dir, "qrc_"@ + stem + ".cpp"@)],
        QtTool::Moc => flags + include_pairs(includes) + seq![file, "-o"@, join(qt_dir, "moc_"@ + stem + ".cpp"@)],
    }
}

fn push_include_pairs(out: &mut Vec<String>, dirs: &[String])
    ensures
        views(final(out)@) == views(old(out)@) + include_pairs(views(dirs@)),
{
    let ghost start = views(out@);
    let mut i: usize = 0;
    assert(include_pairs(views(dirs@).take(0)) =~= Seq::<Seq<char>>::empty());
    assert(views(out@) =~= start + include_pairs(views(dirs@).take(0)));
    while i < dirs.len()
        invariant
            i <= dirs@.len(),
            views(out@) == start + include_pairs(views(dirs@).take(i as int)),
        decreases dirs.len() - i,
    {
        let ghost before = views(out@);
        push_str_item(out, "-I");
        push_str_item(out, dirs[i].as_str());
        assert(views(dirs@).take(i + 1).drop_last() =~= views(dirs@).take(i as int));
        assert(views(out@) =~= before + seq!["-I"@, dirs@[i as int]@]);
        i = i + 1;
    }
    assert(views(dirs@).take(dirs@.len() as int) =~= views(dirs@));
}

/// The command running `tool` (the generator's program) on `file`; `includes`
/// are the include paths then the include directories of the build.
pub fn qt_command(
    tool: QtTool,
    program: &str,
    file: &str,
    qt_dir: &str,
    flags: &[String],
    includes: &[String],
) -> (r: ToolCommand)
    requires
        file_stem(file@) is Some,
    ensures
        r.program@ == program@,
        views(r.args@) == qt_args_spec(tool, file@, qt_dir@, views(flags@), views(includes@)),
{
    let stem = match crate::paths::file_stem_exec(file) {
        Some(s) => s,
        None => String::new(),
    };
    let mut args: Vec<String> = Vec::new();
    match tool {
        QtTool::Uic => {
            let name = crate::text::concat3("ui_", stem.as_str(), ".h");
            let out = crate::paths::join_exec(qt_dir, name.as_str());
            push_str_item(&mut args, file);
            push_str_item(&mut args, "-o");
            push_str_item(&mut args, out.as_str());
        },
        QtTool::Rcc => {
            let name = crate::text::concat3("qrc_", stem.as_str(), ".cpp");
            let out = crate::paths::join_exec(qt_dir, name.as_str());
            push_str_item(&mut args, file);
            push_str_item(&mut args, "-name");
            push_str_item(&mut args, stem.as_str());
            push_str_item(&mut args, "-o");
            push_str_item(&mut args, out.as_str());
        },
        QtTool::Moc => {
            let name = crate::text::concat3("moc_", stem.as_str(), ".cpp");
            let out = crate::paths::join_exec(qt_dir, name.as_str());
            crate::text::extend_strings(&mut args, flags);
            push_include_pairs(&mut args, includes);
            let ghost mid = views(args@);
            push_str_item(&mut args, file);
            push_str_item(&mut args, "-o");
            push_str_item(&mut args, out.as_str());
            assert(views(args@) =~= mid + seq![file@, "-o"@, out@]);
        },
    }
    assert(views(args@) =~= qt_args_spec(tool, file@, qt_dir@, views(flags@), views(includes@)));
    ToolCommand { program: crate::text::own(program), args }
}


/// The Qt 6 packages among the `pkg_config` packages.
pub open spec fn qt6_packages(pkgs: Seq<Seq<char>>) -> Seq<Seq<char>> {
    pkgs.filter(|p: Seq<char>| has_prefix(p, "Qt6"@))
}

/// The packages asked for the Qt tool directory, in order: none when no
/// `Qt6` package is used; else `Qt6Core`, `Qt6Widgets`, `Qt6Gui`, then the
/// project's own `Qt6` packages.
pub open spec fn qt_query_order_spec(pkgs: Seq<Seq<char>>) -> Seq<Seq<char>> {
    if qt6_packages(pkgs).len() == 0 {
        Seq::empty()
    } else {
        seq!["Qt6Core"@, "Qt6Widgets"@, "Qt6Gui"@] + qt6_packages(pkgs)
    }
}

/// The packages to ask for the Qt tool directory (see `qt_query_order_spec`).
pub fn qt_query_order(pkgs: &[String]) -> (r: Vec<String>)
    ensures
        views(r@) == qt_query_order_spec(views(pkgs@)),
{
    let ghost ps = views(pkgs@);
    let mut qt: Vec<String> = Vec::new();
    let mut i: usize = 0;
    proof {
        reveal_with_fuel(Seq::filter, 1);
    }
    assert(ps.take(0).filter(|p: Seq<char>| has_prefix(p, "Qt6"@)) =~= Seq::<Seq<char>>::empty());
    while i < pkgs.len()
        invariant
            i <= pkgs@.len(),
            ps == views(pkgs@),
            views(qt@) == qt6_packages(ps.take(i as int)),
        decreases pkgs.len() - i,
    {
        let ghost before = views(qt@);
        assert(ps.take(i + 1).drop_last() =~= ps.take(i as int));
        assert(ps.take(i + 1).last() == pkgs@[i as int]@);
        proof {
            reveal_with_fuel(Seq::filter, 1);
        }
        if starts_with(pkgs[i].as_str(), "Qt6") {
            qt.push(pkgs[i].clone());
            assert(views(qt@) =~= before.push(pkgs@[i as int]@));
        }
        i = i + 1;
    }
    assert(ps.take(pkgs@.len() as int) =~= ps);
    if qt.len() == 0 {
        let r: Vec<String> = Vec::new();
        assert(views(r@) =~= Seq::<Seq<char>>::empty());
        return r;
    }
    let mut out: Vec<String> = Vec::new();
    push_str_item(&mut out, "Qt6Core");
    push_str_item(&mut out, "Qt6Widgets");
    push_str_item(&mut out, "Qt6Gui");
    crate::text::extend_strings(&mut out, qt.as_slice());
    out
}

/// The names a Qt 6 build of a tool goes by on `PATH`: `<tool>6`, then
/// `<tool>-qt6`.
pub fn qt6_variants(tool: &str) -> (r: Vec<String>)
    ensures
        views(r@) == seq![tool@ + "6"@, tool@ + "-qt6"@],
{
    let mut out: Vec<String> = Vec::new();
    out.push(crate::text::concat2(tool, "6"));
    out.push(crate::text::concat2(tool, "-qt6"));
    assert(views(out@) =~= seq![tool@ + "6"@, tool@ + "-qt6"@]);
    out
}


/// What to do with one file of the project for Qt.
#[derive(Debug, Clone, Copy, PartialEq, Eq, Structural)]
pub enum QtDecision {
    /// Nothing: no generator handles it, its generator is not configured, or
    /// it is a header without `Q_OBJECT`.
    Skip,
    /// A header `moc` may handle: its text is needed.
    NeedText,
    /// Run this generator on it.
    Run(QtTool),
}

/// The decision for `file`, given which generators are configured and the
/// header's text once it is read (`None` before).
pub open spec fn qt_decision_spec(file: Seq<char>, uic: bool, rcc: bool, moc: bool, text: Option<Seq<char>>) -> QtDecision {
    match qt_tool_for_spec(file) {
        None => QtDecision::Skip,
        Some(tool) => if file_stem(file) is None {
            QtDecision::Skip
        } else {
            match tool {
                QtTool::Uic => if uic {
                    QtDecision::Run(QtTool::Uic)
                } else {
                    QtDecision::Skip
                },
                QtTool::Rcc => if rcc {
                    QtDecision::Run(QtTool::Rcc)
                } else {
                    QtDecision::Skip
                },
                QtTool::Moc => if !moc {
                    QtDecision::Skip
                } else {
                    match text {
                        None => QtDecision::NeedText,
                        Some(t) => if crate::text::contains(t, "Q_OBJECT"@) {
                            QtDecision::Run(QtTool::Moc)
                        } else {
                            QtDecision::Skip
                        },
                    }
                },
            }
        },
    }
}

/// Decides what to do with one file for Qt (see `qt_decision_spec`).
pub fn qt_decision(file: &str, uic: bool, rcc: bool, moc: bool, text: Option<&str>) -> (r: QtDecision)
    ensures
        r == qt_decision_spec(file@, uic, rcc, moc, crate::platform::opt_view(text)),
{
    match qt_tool_for(file) {
        None => QtDecision::Skip,
        Some(tool) => {
            if crate::paths::file_stem_exec(file).is_none() {
                return QtDecision::Skip;
            }
            match tool {
                QtTool::Uic => if uic {
                    QtDecision::Run(QtTool::Uic)
                } else {
                    QtDecision::Skip
                },
                QtTool::Rcc => if rcc {
                    QtDecision::Run(QtTool::Rcc)
                } else {
                    QtDecision::Skip
                },
                QtTool::Moc => if !moc {
                    QtDecision::Skip
                } else {
                    match text {
                        None => QtDecision::NeedText,
                        Some(t) => if crate::text::contains_str(t, "Q_OBJECT") {
                            QtDecision::Run(QtTool::Moc)
                        } else {
                            QtDecision::Skip
                        },
                    }
                },
            }
        },
    }
}

} // verus!
