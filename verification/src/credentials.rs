//! The text of the credential file that the native client reads at startup.

use vstd::prelude::*;
use vstd::string::*;
use crate::user::UserConfig;

verus! {

/// What follows the user's name on the first line: the tag of this client.
pub const CLIENT_SUFFIX: &'static str = "plc";

/// The credential text: the name with the client's tag on the first line,
/// the secret on the second, each closed by a line feed.
pub open spec fn passfile_text(username: Seq<char>, password: Seq<char>) -> Seq<char> {
    username + seq!['+'] + CLIENT_SUFFIX@ + seq!['\n'] + password + seq!['\n']
}

/// The text of the credential file for `username` and `password`.
pub fn passfile_contents(username: &str, password: &str) -> (text: String)
    ensures
        text@ == passfile_text(username@, password@),
{
    let mut text = String::new();
    text.append(username);
    text.push('+');
    text.append(CLIENT_SUFFIX);
    text.push('\n');
    text.append(password);
    text.push('\n');
    assert(text@ =~= passfile_text(username@, password@));
    text
}

/// The text of the credential file for the user of `config`.
pub fn create_passfile(config: &UserConfig) -> (text: String)
    ensures
        text@ == passfile_text(config.username@, config.password@),
{
    passfile_contents(config.username.as_str(), config.password.as_str())
}

/// The credential text has the name at its start and the secret before its
/// last line feed, and nothing else but the tag and two line feeds.
pub proof fn lemma_passfile_shape(username: Seq<char>, password: Seq<char>)
    ensures
        passfile_text(username, password).len() == username.len() + password.len()
            + CLIENT_SUFFIX@.len() + 3,
        passfile_text(username, password).subrange(0, username.len() as int) == username,
        passfile_text(username, password).last() == '\n',
{
    let t = passfile_text(username, password);
    assert(t.subrange(0, username.len() as int) =~= username);
}

} // verus!
