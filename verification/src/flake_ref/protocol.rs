//! The transports over which a file, an archive or a repository is reached.

use vstd::prelude::*;

verus! {

/// How the content behind a reference is reached.
#[derive(Debug, Clone, Copy, PartialEq, Eq, Hash, Structural)]
pub enum Transport {
    File,
    HTTP,
    HTTPS,
    SSH,
}

impl Transport {
    /// The scheme that names the transport in a reference.
    pub open spec fn scheme(self) -> Seq<char> {
        match self {
            Transport::File => "file"@,
            Transport::HTTP => "http"@,
            Transport::HTTPS => "https"@,
            Transport::SSH => "ssh"@,
        }
    }

    /// The scheme that names the transport in a reference.
    pub fn scheme_text(self) -> (r: &'static str)
        ensures
            r@ == self.scheme(),
    {
        match self {
            Transport::File => "file",
            Transport::HTTP => "http",
            Transport::HTTPS => "https",
            Transport::SSH => "ssh",
        }
    }
}

/// The characters of the four schemes.
pub proof fn lemma_schemes()
    ensures
        "file"@ == seq!['f', 'i', 'l', 'e'],
        "http"@ == seq!['h', 't', 't', 'p'],
        "https"@ == seq!['h', 't', 't', 'p', 's'],
        "ssh"@ == seq!['s', 's', 'h'],
{
    reveal_strlit("file");
    reveal_strlit("http");
    reveal_strlit("https");
    reveal_strlit("ssh");
    assert("file"@ =~= seq!['f', 'i', 'l', 'e']);
    assert("http"@ =~= seq!['h', 't', 't', 'p']);
    assert("https"@ =~= seq!['h', 't', 't', 'p', 's']);
    assert("ssh"@ =~= seq!['s', 's', 'h']);
}

} // verus!
