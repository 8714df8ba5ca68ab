//! Settings and headers of the Picus output.

use vstd::prelude::*;
use vstd::string::StringExecFns;

verus! {

/// The preludes that can be prepended to a Picus file.
#[derive(Debug, Copy, Clone, PartialEq, Eq, Structural, PartialOrd, Ord, Hash)]
pub enum Preludes {
    Spread,
}

/// How the Picus output is written: whether the IR is optimized first, and the prelude.
#[derive(Debug, Copy, Clone, PartialEq, Eq, Structural)]
pub struct PicusConfig {
    pub optimize: bool,
    pub prelude: Option<Preludes>,
}

impl PicusConfig {
    pub fn new(optimize: bool, prelude: Option<Preludes>) -> (r: Self)
        ensures
            r == (PicusConfig { optimize, prelude }),
    {
        PicusConfig { optimize, prelude }
    }
}

/// The header line of a dependency: `; name version`, then ` (checksum)` where there is
/// one, then the end of the line.
pub open spec fn spec_dep_header(name: Seq<char>, version: Seq<char>, checksum: Option<Seq<char>>) -> Seq<char> {
    "; "@ + name + " "@ + version + match checksum {
        Some(c) => " ("@ + c + ")"@,
        None => Seq::empty(),
    } + "\n"@
}

/// Appends the header line of a dependency.
pub fn dep_header(out: &mut String, name: &str, version: &str, checksum: Option<&str>)
    ensures
        final(out)@ == old(out)@ + spec_dep_header(
            name@,
            version@,
            match checksum {
                Some(c) => Some(c@),
                None => None,
            },
        ),
{
    out.append("; ");
    out.append(name);
    out.append(" ");
    out.append(version);
    if let Some(checksum) = checksum {
        out.append(" (");
        out.append(checksum);
        out.append(")");
    }
    out.append("\n");
    proof {
        assert(final(out)@ =~= old(out)@ + spec_dep_header(
            name@,
            version@,
            match checksum {
                Some(c) => Some(c@),
                None => None,
            },
        ));
    }
}

/// The versions of the dependencies that a header names: the frontend's and the circuit
/// library's, each with its checksum where it has one.
pub struct Versions<'a> {
    pub analyzer: &'a str,
    pub frontend: &'a str,
    pub frontend_checksum: Option<&'a str>,
    pub circuits: &'a str,
    pub circuits_checksum: Option<&'a str>,
}

/// The header of a Picus file.
pub struct Header;

/// The optional checksum as characters.
pub open spec fn opt_view(c: Option<&str>) -> Option<Seq<char>> {
    match c {
        Some(s) => Some(s@),
        None => None,
    }
}

/// The header's text, stamped with the given time.
pub open spec fn spec_header(v: Versions, timestamp: Seq<char>) -> Seq<char> {
    "; vim: set filetype=scheme :\n"@ + "; Midnight analyzer "@ + v.analyzer@ + "\n"@ + spec_dep_header(
        "Haloumi frontend"@,
        v.frontend@,
        opt_view(v.frontend_checksum),
    ) + spec_dep_header("Midnight circuits"@, v.circuits@, opt_view(v.circuits_checksum))
        + "; Timestamp "@ + timestamp + "\n"@
}

/// `chrono::Utc::now()`, shown as its `Display` implementation shows it.
#[verifier::external_body]
fn timestamp_now() -> (r: String) {
    chrono::Utc::now().to_string()
}

impl Header {
    /// The header's text, stamped with the given time.
    pub fn text_at(&self, v: &Versions, timestamp: &str) -> (r: String)
        ensures
            r@ == spec_header(*v, timestamp@),
    {
        let mut out = String::from_str("; vim: set filetype=scheme :\n");
        out.append("; Midnight analyzer ");
        out.append(v.analyzer);
        out.append("\n");
        dep_header(&mut out, "Haloumi frontend", v.frontend, v.frontend_checksum);
        dep_header(&mut out, "Midnight circuits", v.circuits, v.circuits_checksum);
        out.append("; Timestamp ");
        out.append(timestamp);
        out.append("\n");
        proof {
            assert(out@ =~= spec_header(*v, timestamp@));
        }
        out
    }

    /// The header's text, stamped with the current time in UTC.
    pub fn text(&self, v: &Versions) -> (r: String)
        ensures
            exists|t: Seq<char>| r@ == spec_header(*v, t),
    {
        let now = timestamp_now();
        let r = self.text_at(v, now.as_str());
        assert(r@ == spec_header(*v, now@));
        r
    }
}

} // verus!
