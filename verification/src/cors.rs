//! The fairing that adds CORS headers to every response.

use vstd::prelude::*;

verus! {

/// The fairing that adds the CORS headers to each response.
#[derive(Debug, Clone, Copy)]
pub struct CORS;

/// When a fairing runs.
#[derive(Debug, Clone, Copy, PartialEq, Eq, Structural)]
pub enum FairingKind {
    Response,
}

/// The name of a fairing and when it runs.
#[derive(Debug, Clone, Copy)]
pub struct FairingInfo {
    pub name: &'static str,
    pub kind: FairingKind,
}

/// The headers that the fairing sets on a response, in the order it sets them.
pub open spec fn cors_headers() -> Seq<(Seq<char>, Seq<char>)> {
    seq![
        ("Access-Control-Allow-Origin"@, "*"@),
        ("Access-Control-Allow-Methods"@, "POST, GET, PATCH, OPTIONS"@),
        ("Access-Control-Allow-Headers"@, "*"@),
        ("Access-Control-Allow-Credentials"@, "true"@),
    ]
}

impl CORS {
    /// The fairing's name, and that it runs on responses.
    pub fn info(&self) -> (r: FairingInfo)
        ensures
            r.name@ == "Add CORS headers to responses"@,
            r.kind == FairingKind::Response,
    {
        FairingInfo { name: "Add CORS headers to responses", kind: FairingKind::Response }
    }

    /// The headers to set on each response, as (name, value) pairs in order.
    pub fn on_response(&self) -> (r: Vec<(&'static str, &'static str)>)
        ensures
            r@.map_values(|h: (&'static str, &'static str)| (h.0@, h.1@)) == cors_headers(),
    {
        let mut r: Vec<(&'static str, &'static str)> = Vec::new();
        r.push(("Access-Control-Allow-Origin", "*"));
        r.push(("Access-Control-Allow-Methods", "POST, GET, PATCH, OPTIONS"));
        r.push(("Access-Control-Allow-Headers", "*"));
        r.push(("Access-Control-Allow-Credentials", "true"));
        assert(r@.map_values(|h: (&'static str, &'static str)| (h.0@, h.1@)) =~= cors_headers());
        r
    }
}

} // verus!
