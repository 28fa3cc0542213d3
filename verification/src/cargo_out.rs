//! What the library reads out of the build toolchain's answers: the project
//! metadata (dependency list and target directory) and the line of `cargo
//! doc` output that names the generated documentation directory.

use vstd::prelude::*;
use vstd::string::*;
use crate::error::{BuildError, Error};
use crate::text::{append_str, chars_string, lines_spec, split_lines_vec, starts_with_spec,
    starts_with_str, str_chars, str_eq, strings_view, trim_spec, trim_str};

verus! {

/// One dependency of the project.
pub struct Dependency {
    pub name: String,
}

/// One package of the project: what it depends on.
pub struct Package {
    pub dependencies: Vec<Dependency>,
}

/// The project metadata the build pass needs: the first package's
/// dependencies and the build's target directory.
pub struct Metadata {
    pub packages: Vec<Package>,
    pub target_directory: String,
}

/// The names of a package's dependencies.
pub open spec fn dependency_names(p: Package) -> Seq<Seq<char>> {
    Seq::new(p.dependencies@.len(), |i: int| p.dependencies@[i].name@)
}

/// The names of the first package's dependencies, as one vector.
pub fn available_dependencies(metadata: &Metadata) -> (r: Vec<String>)
    requires
        metadata.packages@.len() >= 1,
    ensures
        strings_view(r@) == dependency_names(metadata.packages@[0]),
{
    let deps = &metadata.packages[0].dependencies;
    let mut out: Vec<String> = Vec::new();
    let mut i: usize = 0;
    while i < deps.len()
        invariant
            metadata.packages@.len() >= 1,
            i <= deps@.len(),
            deps@ == metadata.packages@[0].dependencies@,
            out@.len() == i,
            strings_view(out@) == dependency_names(metadata.packages@[0]).take(i as int),
        decreases deps@.len() - i,
    {
        out.push(deps[i].name.clone());
        proof {
            let names = dependency_names(metadata.packages@[0]);
            assert(out@.len() == i + 1);
            assert(out@[i as int] == deps@[i as int].name);
            assert(names[i as int] == deps@[i as int].name@);
            assert forall|q: int| 0 <= q < i + 1 implies strings_view(out@)[q] == names.take(
                i + 1,
            )[q] by {
                if q < i {
                    assert(strings_view(out@)[q] == out@[q]@);
                    assert(strings_view(out@.subrange(0, i as int))[q] == out@[q]@);
                }
            }
            assert(strings_view(out@) =~~= names.take(i + 1));
        }
        i = i + 1;
    }
    proof {
        assert(dependency_names(metadata.packages@[0]).take(i as int) =~~= dependency_names(
            metadata.packages@[0],
        ));
    }
    out
}

/// Whether the crate is one of the names.
pub open spec fn names_contain(names: Seq<Seq<char>>, name: Seq<char>) -> bool {
    exists|i: int| 0 <= i < names.len() && names[i] == name
}

/// Checks that the requested crate is an installed dependency of the first
/// package. Fails exactly when it is not, naming the crates that are.
pub fn validate_dependency(metadata: &Metadata, crate_name: &str) -> (r: Result<(), Error>)
    requires
        metadata.packages@.len() >= 1,
    ensures
        r is Ok <==> names_contain(dependency_names(metadata.packages@[0]), crate_name@),
        r is Err ==> ({
            let e = r->Err_0;
            &&& e is Build
            &&& e->Build_0 is InvalidCrateName
            &&& e->Build_0->InvalidCrateName_requested@ == crate_name@
            &&& strings_view(e->Build_0->InvalidCrateName_available@) == dependency_names(
                metadata.packages@[0],
            )
        }),
{
    let deps = &metadata.packages[0].dependencies;
    let ghost names = dependency_names(metadata.packages@[0]);
    let mut i: usize = 0;
    while i < deps.len()
        invariant
            metadata.packages@.len() >= 1,
            i <= deps@.len(),
            deps@ == metadata.packages@[0].dependencies@,
            names == dependency_names(metadata.packages@[0]),
            forall|q: int| 0 <= q < i ==> names[q] != crate_name@,
        decreases deps@.len() - i,
    {
        if str_eq(deps[i].name.as_str(), crate_name) {
            proof {
                assert(names[i as int] == crate_name@);
            }
            return Ok(());
        }
        i = i + 1;
    }
    proof {
        assert forall|q: int| 0 <= q < names.len() implies names[q] != crate_name@ by {
            assert(q < i);
        }
    }
    Err(
        Error::Build(
            BuildError::InvalidCrateName {
                requested: String::from_str(crate_name),
                available: available_dependencies(metadata),
            },
        ),
    )
}

/// The path the first `Generated` line of the toolchain's output names: each
/// line is trimmed, the first one opening with `Generated ` is taken, and
/// what follows the marker is trimmed again.
pub open spec fn first_generated(lines: Seq<Seq<char>>) -> Option<Seq<char>>
    decreases lines.len(),
{
    if lines.len() == 0 {
        None
    } else {
        let t = trim_spec(lines[0]);
        if starts_with_spec(t, "Generated "@) {
            Some(trim_spec(t.skip("Generated "@.len() as int)))
        } else {
            first_generated(lines.drop_first())
        }
    }
}

/// The position of the last path separator at or before `i`, or -1.
pub open spec fn last_slash(p: Seq<char>, i: int) -> int
    decreases i + 1,
{
    if i < 0 || i >= p.len() {
        -1
    } else if p[i] == '/' {
        i
    } else {
        last_slash(p, i - 1)
    }
}

/// The directory holding the named file: the text before the last path
/// separator, the lone separator for a file at the root, the empty path for a
/// bare file name; the root itself and the empty path have no parent.
pub open spec fn parent_of(p: Seq<char>) -> Option<Seq<char>> {
    if p.len() == 0 || p == seq!['/'] {
        None
    } else {
        let k = last_slash(p, p.len() - 1);
        if k < 0 {
            Some(Seq::<char>::empty())
        } else if k == 0 {
            Some(seq!['/'])
        } else {
            Some(p.take(k))
        }
    }
}

/// What parsing the toolchain's output yields: the directory holding the
/// generated index file.
pub open spec fn generated_dir(stdout: Seq<char>) -> Option<Seq<char>> {
    match first_generated(lines_spec(stdout)) {
        None => None,
        Some(p) => parent_of(p),
    }
}

/// A bounded preview of misbehaving output: at most its first two hundred
/// characters.
pub open spec fn preview_spec(s: Seq<char>) -> Seq<char> {
    if s.len() <= 200 {
        s
    } else {
        s.take(200)
    }
}

fn last_slash_exec(v: &Vec<char>, j: usize) -> (r: Option<usize>)
    requires
        j <= v@.len(),
    ensures
        match r {
            Some(k) => last_slash(v@, j - 1) == k && k < j,
            None => last_slash(v@, j - 1) == -1,
        },
    decreases j,
{
    if j == 0 {
        None
    } else if v[j - 1] == '/' {
        Some(j - 1)
    } else {
        last_slash_exec(v, j - 1)
    }
}

/// The directory holding the named file, per `parent_of`.
fn parent_dir(p: &str) -> (r: Option<String>)
    ensures
        match r {
            Some(d) => parent_of(p@) == Some(d@),
            None => parent_of(p@) is None,
        },
{
    let v = str_chars(p);
    let n = v.len();
    if n == 0 {
        return None;
    }
    if n == 1 && v[0] == '/' {
        proof {
            assert(v@ =~= seq!['/']);
        }
        return None;
    }
    proof {
        assert(v@ != seq!['/']) by {
            if v@ == seq!['/'] {
                assert(v@.len() == 1);
                assert(v@[0] == '/');
            }
        }
    }
    match last_slash_exec(&v, n) {
        None => {
            let empty: Vec<char> = Vec::new();
            Some(chars_string(&empty))
        },
        Some(k) => {
            if k == 0 {
                let mut root: Vec<char> = Vec::new();
                root.push('/');
                proof {
                    assert(root@ =~= seq!['/']);
                }
                Some(chars_string(&root))
            } else {
                let mut out: Vec<char> = Vec::new();
                let mut q: usize = 0;
                while q < k
                    invariant
                        q <= k < n,
                        n == v@.len(),
                        out@ == v@.subrange(0, q as int),
                    decreases k - q,
                {
                    out.push(v[q]);
                    assert(out@ =~= v@.subrange(0, q + 1));
                    q = q + 1;
                }
                proof {
                    assert(v@.take(k as int) =~= v@.subrange(0, k as int));
                }
                Some(chars_string(&out))
            }
        },
    }
}

/// Parses the toolchain's output to the directory of the generated index
/// file: the first trimmed line opening with `Generated ` names the file, and
/// the file's directory answers. Fails exactly when no such line names a file
/// with a parent, surfacing a bounded preview of the output.
pub fn parse_generated_output(stdout: &str) -> (r: Result<String, Error>)
    ensures
        match r {
            Ok(d) => generated_dir(stdout@) == Some(d@),
            Err(e) => {
                &&& generated_dir(stdout@) is None
                &&& e is Build
                &&& e->Build_0 is CargoDocOutputParseFailed
                &&& e->Build_0->CargoDocOutputParseFailed_output_preview@ == preview_spec(stdout@)
            },
        },
        r is Ok <==> generated_dir(stdout@) is Some,
{
    let chars = str_chars(stdout);
    let lines = split_lines_vec(&chars);
    let mut i: usize = 0;
    let ghost lv = strings_view(lines@);
    proof {
        assert(lv.skip(0) =~= lv);
    }
    while i < lines.len()
        invariant
            i <= lines@.len(),
            lv == strings_view(lines@),
            lv == lines_spec(stdout@),
            first_generated(lv) == first_generated(lv.skip(i as int)),
        decreases lines@.len() - i,
    {
        proof {
            assert(lv.skip(i as int)[0] == lines@[i as int]@);
            assert(lv.skip(i as int).drop_first() =~= lv.skip(i + 1));
        }
        let t = trim_str(lines[i].as_str());
        if starts_with_str(t.as_str(), "Generated ") {
            proof {
                reveal_strlit("Generated ");
            }
            let tc = str_chars(t.as_str());
            let mut restv: Vec<char> = Vec::new();
            let mut q: usize = 10;
            while q < tc.len()
                invariant
                    10 <= q <= tc@.len(),
                    10 <= tc@.len(),
                    restv@ == tc@.subrange(10, q as int),
                decreases tc@.len() - q,
            {
                restv.push(tc[q]);
                assert(restv@ =~= tc@.subrange(10, q + 1));
                q = q + 1;
            }
            proof {
                assert(tc@.subrange(10, tc@.len() as int) =~= tc@.skip(10));
            }
            let path = trim_str(chars_string(&restv).as_str());
            proof {
                assert(first_generated(lv) == Some(path@));
            }
            match parent_dir(path.as_str()) {
                Some(d) => {
                    return Ok(d);
                },
                None => {
                    let preview = output_preview(stdout);
                    return Err(
                        Error::Build(
                            BuildError::CargoDocOutputParseFailed { output_preview: preview },
                        ),
                    );
                },
            }
        }
        i = i + 1;
    }
    proof {
        assert(lv.skip(i as int) =~= Seq::<Seq<char>>::empty());
    }
    let preview = output_preview(stdout);
    Err(Error::Build(BuildError::CargoDocOutputParseFailed { output_preview: preview }))
}

/// At most the first two hundred characters of the output.
fn output_preview(stdout: &str) -> (r: String)
    ensures
        r@ == preview_spec(stdout@),
{
    let v = str_chars(stdout);
    if v.len() <= 200 {
        return chars_string(&v);
    }
    let mut out: Vec<char> = Vec::new();
    let mut q: usize = 0;
    while q < 200
        invariant
            q <= 200,
            v@.len() > 200,
            v@ == stdout@,
            out@ == v@.subrange(0, q as int),
        decreases 200 - q,
    {
        out.push(v[q]);
        assert(out@ =~= v@.subrange(0, q + 1));
        q = q + 1;
    }
    proof {
        assert(v@.take(200) =~= v@.subrange(0, 200));
    }
    chars_string(&out)
}

} // verus!
