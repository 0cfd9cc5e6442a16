//! Where the store lies, and what the health check answers.
use vstd::prelude::*;

verus! {

/// The name of the database inside the store directory.
pub const DATABASE: &'static str = "signal-serve.db";

/// The status of a healthy server: 204 No Content.
pub const NO_CONTENT: u16 = 204;

/// The path of the database in a directory. A separator is added unless the directory is the
/// empty path or ends in one.
pub open spec fn database_path(directory: Seq<char>) -> Seq<char> {
    if directory.len() == 0 || directory.last() == '/' {
        directory + DATABASE@
    } else {
        directory + seq!['/'] + DATABASE@
    }
}

/// The URL of the SQLite database in a store directory.
pub fn store_url(path: &str) -> (url: String)
    ensures
        url@ == "sqlite://"@ + database_path(path@),
{
    let length: usize = path.unicode_len();
    let mut url: String = "sqlite://".to_owned();
    url.append(path);
    if length > 0 && path.get_char(length - 1) != '/' {
        url.append("/");
        proof {
            reveal_strlit("/");
            assert("/"@ =~= seq!['/']);
        }
    }
    url.append(DATABASE);
    assert(url@ =~= "sqlite://"@ + database_path(path@));
    url
}

/// Answers a health check.
pub fn health_check() -> (status: u16)
    ensures
        status == NO_CONTENT,
{
    NO_CONTENT
}

} // verus!
