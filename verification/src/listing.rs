use vstd::prelude::*;
use crate::error::ToolsetError;

verus! {

/// An entity with a name: a framework or a test implementation, as the
/// metadata provider hands them out.
pub trait Named {
    spec fn spec_name(&self) -> Seq<char>;

    fn get_name(&self) -> (r: String)
        ensures
            r@ == self.spec_name(),
    ;
}

/// A named entity held as a plain value.
pub struct Entity {
    pub name: String,
}

impl Named for Entity {
    open spec fn spec_name(&self) -> Seq<char> {
        self.name@
    }

    fn get_name(&self) -> (r: String) {
        self.name.clone()
    }
}

/// The names of the listed entities, one console line each, in listed order;
/// a failed listing propagates its error unchanged.
pub open spec fn listing_lines<T: Named>(result: Result<Seq<T>, ToolsetError>) -> Result<
    Seq<Seq<char>>,
    ToolsetError,
> {
    match result {
        Ok(list) => Ok(list.map_values(|t: T| t.spec_name())),
        Err(e) => Err(e),
    }
}

fn print_all<T: Named>(result: Result<Vec<T>, ToolsetError>) -> (r: Result<
    Vec<String>,
    ToolsetError,
>)
    ensures
        match r {
            Ok(lines) => listing_lines(
                match result {
                    Ok(list) => Ok::<Seq<T>, ToolsetError>(list@),
                    Err(e) => Err(e),
                },
            ) == Ok::<Seq<Seq<char>>, ToolsetError>(lines@.map_values(|s: String| s@)),
            Err(e) => result is Err && e == result->Err_0,
        },
        r is Ok <==> result is Ok,
{
    match result {
        Ok(list) => {
            let mut lines: Vec<String> = Vec::new();
            let mut i: usize = 0;
            proof {
                assert(lines@.map_values(|s: String| s@) =~~= list@.subrange(0, 0).map_values(
                    |t: T| t.spec_name(),
                ));
            }
            while i < list.len()
                invariant
                    0 <= i <= list@.len(),
                    lines@.map_values(|s: String| s@) == list@.subrange(0, i as int).map_values(
                        |t: T| t.spec_name(),
                    ),
                decreases list@.len() - i,
            {
                let ghost lo = lines@;
                let name = list[i].get_name();
                proof {
                    assert(name@ == list@[i as int].spec_name());
                }
                lines.push(name);
                proof {
                    assert(lines@ == lo.push(name));
                    assert(lo.map_values(|s: String| s@) == list@.subrange(0, i as int).map_values(
                        |t: T| t.spec_name(),
                    ));
                    assert(lo.map_values(|s: String| s@).len() == lo.len());
                    assert(list@.subrange(0, i as int).map_values(|t: T| t.spec_name()).len() == i);
                    assert(lo.len() == i as int);
                    let lhs = lines@.map_values(|s: String| s@);
                    let rhs = list@.subrange(0, i + 1).map_values(|t: T| t.spec_name());
                    assert(lhs.len() == rhs.len());
                    assert forall|j: int| 0 <= j < lhs.len() implies lhs[j] == rhs[j] by {
                        if j < i as int {
                            assert(lhs[j] == lo.map_values(|s: String| s@)[j]);
                            assert(rhs[j] == list@[j].spec_name());
                        } else {
                            assert(lhs[j] == name@);
                            assert(rhs[j] == list@[i as int].spec_name());
                        }
                    }
                    assert(lhs =~= rhs);
                }
                i = i + 1;
            }
            proof {
                assert(list@.subrange(0, list@.len() as int) =~= list@);
            }
            Ok(lines)
        },
        Err(e) => Err(e),
    }
}

/// The lines that listing every known framework prints: each framework's name
/// on a console line of its own, or the listing's error unchanged.
pub fn print_all_frameworks<T: Named>(frameworks: Result<Vec<T>, ToolsetError>) -> (r: Result<
    Vec<String>,
    ToolsetError,
>)
    ensures
        match r {
            Ok(lines) => frameworks is Ok && lines@.map_values(|s: String| s@)
                == frameworks->Ok_0@.map_values(|t: T| t.spec_name()),
            Err(e) => frameworks is Err && e == frameworks->Err_0,
        },
{
    print_all(frameworks)
}

/// The lines that listing every known test implementation prints: each test's
/// name on a console line of its own, or the listing's error unchanged.
pub fn print_all_tests<T: Named>(tests: Result<Vec<T>, ToolsetError>) -> (r: Result<
    Vec<String>,
    ToolsetError,
>)
    ensures
        match r {
            Ok(lines) => tests is Ok && lines@.map_values(|s: String| s@)
                == tests->Ok_0@.map_values(|t: T| t.spec_name()),
            Err(e) => tests is Err && e == tests->Err_0,
        },
{
    print_all(tests)
}

/// The lines that listing the tests carrying a given tag prints: each test's
/// name on a console line of its own, or the listing's error unchanged.
pub fn print_all_tests_with_tag<T: Named>(tests: Result<Vec<T>, ToolsetError>) -> (r: Result<
    Vec<String>,
    ToolsetError,
>)
    ensures
        match r {
            Ok(lines) => tests is Ok && lines@.map_values(|s: String| s@)
                == tests->Ok_0@.map_values(|t: T| t.spec_name()),
            Err(e) => tests is Err && e == tests->Err_0,
        },
{
    print_all(tests)
}

/// The lines that listing one framework's tests prints: each test's name on a
/// console line of its own, or the listing's error unchanged.
pub fn print_all_tests_for_framework<T: Named>(tests: Result<Vec<T>, ToolsetError>) -> (r: Result<
    Vec<String>,
    ToolsetError,
>)
    ensures
        match r {
            Ok(lines) => tests is Ok && lines@.map_values(|s: String| s@)
                == tests->Ok_0@.map_values(|t: T| t.spec_name()),
            Err(e) => tests is Err && e == tests->Err_0,
        },
{
    print_all(tests)
}

} // verus!
