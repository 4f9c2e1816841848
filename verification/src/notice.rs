//! What the participants are told when a session changes its phase.
//!
//! The registry sends nothing itself. Each function here says what is to be
//! sent, and the caller sends it.

use vstd::prelude::*;
use vstd::string::*;
use crate::session::{usernames_text, Message, Session};

verus! {

/// The buttons shown below a message.
#[derive(Clone, Copy, Debug, PartialEq, Eq, Structural)]
pub enum Keyboard {
    /// No buttons.
    Plain,
    /// A button by which a user joins the session.
    Join,
    /// Two buttons that ask whether to go on with another session.
    AskToContinue,
}

/// A message to be sent to a session's conversation.
#[derive(Clone, Debug)]
pub struct Notice {
    /// The conversation to send to.
    pub chat_id: i64,
    /// The message of the conversation that is to be deleted, if any.
    pub delete: Option<u32>,
    /// The text to send.
    pub text: String,
    /// The buttons to show below the text.
    pub keyboard: Keyboard,
    /// Whether the message, once sent, stands for the session from then on.
    pub replaces_message: bool,
}

impl Session {
    /// Whether `n` is the notice that work begins: the participants are called
    /// by name in a new message, and the session's old message is deleted.
    pub open spec fn is_start_notice(&self, n: Notice) -> bool {
        &&& n.chat_id == self.message.chat_id
        &&& n.delete == Some(self.message.id)
        &&& n.text@ == usernames_text(self.participants@) + "\n\nSession has started!"@
        &&& n.keyboard == Keyboard::Plain
        &&& n.replaces_message
    }

    /// Whether `n` is the notice that work ends and the break begins. The old
    /// message stays in a group and is deleted elsewhere.
    pub open spec fn is_end_notice(&self, n: Notice) -> bool {
        &&& n.chat_id == self.message.chat_id
        &&& n.delete == if self.message.chat_kind.is_shared() {
            None
        } else {
            Some(self.message.id)
        }
        &&& n.text@ == usernames_text(self.participants@)
            + "\n\nSession is over! Now take a short, 5 minute break"@
        &&& n.keyboard == Keyboard::Plain
        &&& n.replaces_message
    }

    /// Whether `n` is the notice that the break ends. In a group the
    /// participants are called by name; elsewhere the old message is deleted
    /// and the user is asked whether to go on.
    pub open spec fn is_break_end_notice(&self, n: Notice) -> bool {
        &&& n.chat_id == self.message.chat_id
        &&& !n.replaces_message
        &&& if self.message.chat_kind.is_shared() {
            &&& n.delete is None
            &&& n.keyboard == Keyboard::Plain
            &&& n.text@ == usernames_text(self.participants@) + "\n\nBreak is over!"@
        } else {
            &&& n.delete == Some(self.message.id)
            &&& n.keyboard == Keyboard::AskToContinue
            &&& n.text@ == "Break is over! Do you want to continue?"@
        }
    }

    /// What is sent when the work phase begins: the participants are called
    /// by name in a new message, which replaces the session's old one.
    pub fn notify_participants_on_start(&self) -> (r: Notice)
        ensures
            self.is_start_notice(r),
    {
        let mut text = self.string_of_subscribed_usernames();
        text.append("\n\nSession has started!");
        Notice {
            chat_id: self.message.chat_id,
            delete: Some(self.message.id),
            text,
            keyboard: Keyboard::Plain,
            replaces_message: true,
        }
    }

    /// What is sent when the work phase ends and the break begins. In a group
    /// the old message stays; elsewhere it is deleted. The new message stands
    /// for the session from then on.
    pub fn notify_participants_on_end(&self) -> (r: Notice)
        ensures
            self.is_end_notice(r),
    {
        let mut text = self.string_of_subscribed_usernames();
        text.append("\n\nSession is over! Now take a short, 5 minute break");
        let delete = if self.message.chat_kind.shared() {
            None
        } else {
            Some(self.message.id)
        };
        Notice {
            chat_id: self.message.chat_id,
            delete,
            text,
            keyboard: Keyboard::Plain,
            replaces_message: true,
        }
    }

    /// What is sent when the break ends. In a group the participants are
    /// called by name. Elsewhere the old message is deleted and the user is
    /// asked whether to go on.
    pub fn notify_participants_on_break_end(&self) -> (r: Notice)
        ensures
            self.is_break_end_notice(r),
    {
        if self.message.chat_kind.shared() {
            let mut text = self.string_of_subscribed_usernames();
            text.append("\n\nBreak is over!");
            Notice {
                chat_id: self.message.chat_id,
                delete: None,
                text,
                keyboard: Keyboard::Plain,
                replaces_message: false,
            }
        } else {
            Notice {
                chat_id: self.message.chat_id,
                delete: Some(self.message.id),
                text: String::from_str("Break is over! Do you want to continue?"),
                keyboard: Keyboard::AskToContinue,
                replaces_message: false,
            }
        }
    }

    /// Lets `message` stand for the session from now on, as after a notice
    /// that replaces the session's message has been sent.
    pub fn set_message(&mut self, message: Message)
        ensures
            *final(self) == (Session { message, ..*old(self) }),
    {
        self.message = message;
    }
}

} // verus!
