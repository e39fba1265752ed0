//! Conversation sessions: the message history of one channel, with bounded
//! context-window trimming.  Locking and time stamping live with the caller.

use vstd::prelude::*;

verus! {

/// One conversation session.
pub struct Session {
    pub id: String,
    pub name: String,
    pub created_at: String,
    pub last_active: String,
    /// Conversation history, oldest first.
    pub messages: Vec<SessionMessage>,
    pub thinking_level: Option<String>,
    pub model_override: Option<String>,
}

/// One message of a session.
pub struct SessionMessage {
    /// "user", "assistant" or "system".
    pub role: String,
    pub content: String,
    pub timestamp: String,
}

/// How many messages a session keeps.
pub const SESSION_KEEP: usize = 50;

impl Session {
    /// Append a message and keep only the most recent `SESSION_KEEP`
    /// messages, dropping the oldest.
    #[verifier::loop_isolation(false)]
    pub fn append_message(&mut self, msg: SessionMessage, now: String)
        ensures
            final(self).last_active == now,
            final(self).id == old(self).id,
            final(self).name == old(self).name,
            final(self).created_at == old(self).created_at,
            ({
                let grown = old(self).messages@.push(msg);
                if grown.len() <= SESSION_KEEP as int {
                    final(self).messages@ == grown
                } else {
                    final(self).messages@ == grown.subrange(
                        grown.len() - SESSION_KEEP as int,
                        grown.len() as int,
                    )
                }
            }),
    {
        let ghost grown = self.messages@.push(msg);
        self.messages.push(msg);
        self.last_active = now;
        proof {
            assert(grown.subrange(0, grown.len() as int) =~= grown);
        }
        while self.messages.len() > SESSION_KEEP
            invariant
                1 <= self.messages@.len() <= grown.len(),
                self.messages@ == grown.subrange(
                    grown.len() - self.messages@.len(),
                    grown.len() as int,
                ),
                self.last_active == now,
                self.id == old(self).id,
                self.name == old(self).name,
                self.created_at == old(self).created_at,
                self.messages@.len() >= SESSION_KEEP || self.messages@ == grown,
            decreases self.messages@.len(),
        {
            let ghost before = self.messages@;
            self.messages.remove(0);
            proof {
                assert(self.messages@ =~= before.drop_first());
                assert(before.drop_first() =~= grown.subrange(
                    grown.len() - before.len() + 1, grown.len() as int));
            }
        }
        proof {
            if grown.len() <= SESSION_KEEP as int {
                assert(self.messages@ =~= grown);
            }
        }
    }

    /// Clear the history, as a session reset does.
    pub fn reset(&mut self, now: String)
        ensures
            final(self).messages@.len() == 0,
            final(self).last_active == now,
            final(self).id == old(self).id,
    {
        self.messages = Vec::new();
        self.last_active = now;
    }
}

} // verus!
