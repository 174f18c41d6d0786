//! From a request path to the route it names.

use vstd::prelude::*;
use vstd::string::*;
use crate::text::{chars_of, same_text};

verus! {

/// `path` without the slashes it starts with.
pub open spec fn trim_slashes(path: Seq<char>) -> Seq<char>
    decreases path.len(),
{
    if path.len() > 0 && path[0] == '/' {
        trim_slashes(path.drop_first())
    } else {
        path
    }
}

/// The part of `path` before its first slash; all of it where it has none.
pub open spec fn segment(path: Seq<char>) -> Seq<char>
    decreases path.len(),
{
    if path.len() == 0 || path[0] == '/' {
        Seq::empty()
    } else {
        seq![path[0]] + segment(path.drop_first())
    }
}

/// The part of `path` behind its first slash; nothing where it has none.
pub open spec fn after_segment(path: Seq<char>) -> Seq<char> {
    if segment(path).len() < path.len() {
        path.skip(segment(path).len() + 1 as int)
    } else {
        Seq::empty()
    }
}

/// Where a request is bound for.
#[derive(Debug)]
pub enum Route {
    /// The diagnostic listing of devices.
    Devices,
    /// The secrets; the domain is empty where the path names none.
    Secrets(String),
    /// No route of this service.
    Unknown,
}

/// A route as a mathematical value.
pub ghost enum RouteView {
    Devices,
    Secrets(Seq<char>),
    Unknown,
}

impl View for Route {
    type V = RouteView;

    open spec fn view(&self) -> RouteView {
        match self {
            Route::Devices => RouteView::Devices,
            Route::Secrets(domain) => RouteView::Secrets(domain@),
            Route::Unknown => RouteView::Unknown,
        }
    }
}

/// The route that `path` names. Leading slashes do not count; the first
/// segment picks the route, and for the secrets the second segment is the
/// domain. Further segments are not looked at.
pub open spec fn route_of(path: Seq<char>) -> RouteView {
    let trimmed = trim_slashes(path);
    if segment(trimmed) == "secrets"@ {
        RouteView::Secrets(segment(after_segment(trimmed)))
    } else if segment(trimmed) == "devices"@ {
        RouteView::Devices
    } else {
        RouteView::Unknown
    }
}

/// The first position at or behind `from` that holds no slash.
fn skip_slashes(chars: &Vec<char>, from: usize) -> (r: usize)
    requires
        from <= chars.len(),
    ensures
        from <= r <= chars.len(),
        chars@.skip(r as int) == trim_slashes(chars@.skip(from as int)),
{
    let mut i = from;
    while i < chars.len() && chars[i] == '/'
        invariant
            from <= i <= chars.len(),
            trim_slashes(chars@.skip(i as int)) == trim_slashes(chars@.skip(from as int)),
        decreases chars.len() - i,
    {
        assert(chars@.skip(i as int).drop_first() =~= chars@.skip(i + 1));
        i += 1;
    }
    i
}

/// The first position at or behind `from` that holds a slash, or the length.
fn segment_end(chars: &Vec<char>, from: usize) -> (r: usize)
    requires
        from <= chars.len(),
    ensures
        from <= r <= chars.len(),
        chars@.subrange(from as int, r as int) == segment(chars@.skip(from as int)),
{
    let mut i = from;
    while i < chars.len() && chars[i] != '/'
        invariant
            from <= i <= chars.len(),
            segment(chars@.skip(from as int)) == chars@.subrange(from as int, i as int) + segment(
                chars@.skip(i as int),
            ),
        decreases chars.len() - i,
    {
        assert(chars@.skip(i as int).drop_first() =~= chars@.skip(i + 1));
        assert(chars@.subrange(from as int, i + 1) =~= chars@.subrange(from as int, i as int)
            + seq![chars@[i as int]]);
        assert(chars@.subrange(from as int, i + 1) + segment(chars@.skip(i + 1))
            =~= chars@.subrange(from as int, i as int) + (seq![chars@[i as int]] + segment(
            chars@.skip(i + 1),
        )));
        i += 1;
    }
    assert(chars@.subrange(from as int, i as int) + Seq::<char>::empty() =~= chars@.subrange(
        from as int,
        i as int,
    ));
    i
}

/// Finds the route that `path` names.
pub fn route(path: &str) -> (r: Route)
    ensures
        r@ == route_of(path@),
{
    let chars = chars_of(path);
    let start = skip_slashes(&chars, 0);
    assert(chars@.skip(0) =~= path@);
    let end = segment_end(&chars, start);
    let ghost trimmed = trim_slashes(path@);
    assert(chars@.subrange(start as int, end as int) == segment(trimmed));
    let first = path.substring_char(start, end);
    if same_text(first, "secrets") {
        if end < chars.len() {
            let stop = segment_end(&chars, end + 1);
            assert(trimmed.skip(end - start + 1) =~= chars@.skip(end + 1));
            Route::Secrets(String::from_str(path.substring_char(end + 1, stop)))
        } else {
            let domain = String::new();
            assert(segment(Seq::<char>::empty()) =~= Seq::<char>::empty());
            Route::Secrets(domain)
        }
    } else if same_text(first, "devices") {
        Route::Devices
    } else {
        Route::Unknown
    }
}

} // verus!
