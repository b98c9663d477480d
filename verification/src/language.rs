//! Keeping language servers informed of the documents that are open.
//!
//! The editor never talks to a server itself. It decides what has to be said
//! and leaves the messages in an outbox, in the order in which they arose.

use crate::document::{opt_chars, Document, DocumentModel};
use vstd::prelude::*;
use vstd::string::{StrSliceExecFns, StringExecFns};

verus! {

/// A message for a language server.
#[derive(Debug, Clone)]
pub enum Notification {
    /// The server is told of a document, with its whole text.
    DidOpen { server: usize, path: Option<String>, version: i32, text: String, language_id: String },
    /// The server is told that a document is gone.
    DidClose { server: usize, path: Option<String> },
}

/// The mathematical value of a `Notification`.
#[verifier::ext_equal]
pub enum NotificationModel {
    DidOpen {
        server: usize,
        path: Option<Seq<char>>,
        version: i32,
        text: Seq<char>,
        language_id: Seq<char>,
    },
    DidClose { server: usize, path: Option<Seq<char>> },
}

impl View for Notification {
    type V = NotificationModel;

    open spec fn view(&self) -> NotificationModel {
        match *self {
            Notification::DidOpen { server, path, version, text, language_id } => {
                NotificationModel::DidOpen {
                    server,
                    path: opt_chars(path),
                    version,
                    text: text@,
                    language_id: language_id@,
                }
            },
            Notification::DidClose { server, path } => NotificationModel::DidClose {
                server,
                path: opt_chars(path),
            },
        }
    }
}

/// The values of a sequence of notifications.
pub open spec fn notification_models(s: Seq<Notification>) -> Seq<NotificationModel> {
    s.map_values(|n: Notification| n@)
}

/// The place of the last dot in `s`, or -1 if it has none.
pub open spec fn last_dot(s: Seq<char>) -> int
    decreases s.len(),
{
    if s.len() == 0 {
        -1
    } else if s.last() == '.' {
        s.len() - 1
    } else {
        last_dot(s.drop_last())
    }
}

/// The name a language goes by with its server: what follows the last dot of
/// its scope, or the whole scope if it has no dot.
pub open spec fn language_id_of(scope: Seq<char>) -> Seq<char> {
    scope.subrange(last_dot(scope) + 1, scope.len() as int)
}

/// The name a language goes by with its server: what follows the last dot of
/// its scope, or the whole scope if it has no dot.
pub fn language_id(scope: &str) -> (id: String)
    ensures
        id@ == language_id_of(scope@),
{
    let n = scope.unicode_len();
    let mut start: usize = 0;
    let mut i: usize = 0;
    while i < n
        invariant
            i <= n,
            n == scope@.len(),
            start <= i,
            start as int == last_dot(scope@.subrange(0, i as int)) + 1,
        decreases n - i,
    {
        let c = scope.get_char(i);
        proof {
            let s1 = scope@.subrange(0, i + 1);
            assert(s1.drop_last() =~= scope@.subrange(0, i as int));
            assert(s1.last() == scope@[i as int]);
        }
        if c == '.' {
            start = i + 1;
        }
        i += 1;
    }
    assert(scope@.subrange(0, n as int) =~= scope@);
    String::from_str(scope.substring_char(start, n))
}

/// The place of the last dot is a place of a dot, and no dot follows it.
pub proof fn lemma_last_dot(s: Seq<char>)
    ensures
        -1 <= last_dot(s) < s.len(),
        last_dot(s) >= 0 ==> s[last_dot(s)] == '.',
        forall|i: int| last_dot(s) < i < s.len() ==> s[i] != '.',
    decreases s.len(),
{
    if s.len() > 0 && s.last() != '.' {
        lemma_last_dot(s.drop_last());
        assert forall|i: int| last_dot(s) < i < s.len() implies s[i] != '.' by {
            if i < s.len() - 1 {
                assert(s.drop_last()[i] == s[i]);
            }
        }
    }
}

/// A language's name has no dot, and the scope is that name behind either
/// nothing or a prefix that ends in a dot.
pub proof fn lemma_language_id(scope: Seq<char>)
    ensures
        forall|i: int| 0 <= i < language_id_of(scope).len() ==> language_id_of(scope)[i] != '.',
        scope == scope.subrange(0, last_dot(scope) + 1) + language_id_of(scope),
        last_dot(scope) == -1 ==> language_id_of(scope) == scope,
{
    lemma_last_dot(scope);
    let k = last_dot(scope) + 1;
    assert(scope =~= scope.subrange(0, k) + scope.subrange(k, scope.len() as int));
    if k == 0 {
        assert(scope.subrange(0, scope.len() as int) =~= scope);
    }
}

/// What binding a document to the server `found` for its language changes and
/// sends: nothing if no server was found or the document is bound to it
/// already; otherwise the server that was bound before is told that the
/// document is gone, the new one is told of the document, and the document is
/// bound to the new one. A server found for a document without a language
/// does not count.
pub open spec fn launched(doc: DocumentModel, found: Option<usize>) -> (
    DocumentModel,
    Seq<NotificationModel>,
) {
    if doc.language is Some && found is Some && doc.language_server != found {
        let open = NotificationModel::DidOpen {
            server: found->0,
            path: doc.path,
            version: doc.version,
            text: doc.text,
            language_id: language_id_of(doc.language->0),
        };
        let sent = match doc.language_server {
            Some(before) => seq![NotificationModel::DidClose { server: before, path: doc.path }, open],
            None => seq![open],
        };
        (DocumentModel { language_server: found, ..doc }, sent)
    } else {
        (doc, Seq::empty())
    }
}

/// Binds `doc` to the server `found` for its language, and returns what the
/// servers have to be told.
pub fn launch(doc: &mut Document, found: Option<usize>) -> (sent: Vec<Notification>)
    ensures
        (final(doc)@, notification_models(sent@)) == launched(old(doc)@, found),
{
    let mut sent: Vec<Notification> = Vec::new();
    let server = match (&doc.language, found) {
        (Some(_), Some(server)) => server,
        _ => {
            assert(notification_models(sent@) =~= Seq::empty());
            return sent;
        },
    };
    if doc.language_server == Some(server) {
        assert(notification_models(sent@) =~= Seq::empty());
        return sent;
    }
    if let Some(before) = doc.language_server {
        sent.push(Notification::DidClose { server: before, path: doc.path.clone() });
    }
    let id = match &doc.language {
        Some(scope) => language_id(scope.as_str()),
        None => String::new(),
    };
    sent.push(
        Notification::DidOpen {
            server,
            path: doc.path.clone(),
            version: doc.version,
            text: doc.text.clone(),
            language_id: id,
        },
    );
    doc.language_server = Some(server);
    assert(notification_models(sent@) =~= launched(old(doc)@, found).1);
    sent
}

/// Milliseconds that language servers get to shut down unless told otherwise.
pub const DEFAULT_SHUTDOWN_TIMEOUT_MS: u64 = 500;

/// Milliseconds that language servers get to shut down: `timeout`, or the
/// default if none is given.
pub fn shutdown_timeout_ms(timeout: Option<u64>) -> (ms: u64)
    ensures
        ms == match timeout {
            Some(t) => t,
            None => DEFAULT_SHUTDOWN_TIMEOUT_MS,
        },
{
    match timeout {
        Some(t) => t,
        None => DEFAULT_SHUTDOWN_TIMEOUT_MS,
    }
}

} // verus!
