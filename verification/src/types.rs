//! Plain data shared by the client and the server.

use crate::ids::Uuid;
use crate::time::Timestamp;
use vstd::prelude::*;
use vstd::string::StringExecFns;

verus! {

/// One entry of a conversation.
#[derive(Debug, Clone, PartialEq)]
pub enum Interaction {
    /// A turn that a human submitted.
    User { content: String, created_at: Timestamp },
    /// A turn that the model submitted.
    Ai { content: String, created_at: Timestamp },
    /// A failure recorded in place of a model turn.
    Error { reason: String, created_at: Timestamp },
    /// A file that belongs to the turn that follows.
    Attachment { filename: String, mime_type: String },
}

/// The mathematical value of an [`Interaction`].
pub enum InteractionView {
    User { content: Seq<char>, created_at: Timestamp },
    Ai { content: Seq<char>, created_at: Timestamp },
    Error { reason: Seq<char>, created_at: Timestamp },
    Attachment { filename: Seq<char>, mime_type: Seq<char> },
}

impl View for Interaction {
    type V = InteractionView;

    open spec fn view(&self) -> InteractionView {
        match *self {
            Interaction::User { content, created_at } => InteractionView::User {
                content: content@,
                created_at,
            },
            Interaction::Ai { content, created_at } => InteractionView::Ai {
                content: content@,
                created_at,
            },
            Interaction::Error { reason, created_at } => InteractionView::Error {
                reason: reason@,
                created_at,
            },
            Interaction::Attachment { filename, mime_type } => InteractionView::Attachment {
                filename: filename@,
                mime_type: mime_type@,
            },
        }
    }
}

/// One conversation session.
#[derive(Debug, Clone, PartialEq)]
pub struct ChatLog {
    pub uuid: Uuid,
    pub title: String,
    pub model: Option<String>,
    pub status: Option<String>,
    pub system_prompt: Option<String>,
    pub interactions: Vec<Interaction>,
}

/// The mathematical value of a [`ChatLog`].
pub struct ChatLogView {
    pub uuid: Uuid,
    pub title: Seq<char>,
    pub model: Option<Seq<char>>,
    pub status: Option<Seq<char>>,
    pub system_prompt: Option<Seq<char>>,
    pub interactions: Seq<InteractionView>,
}

/// The value of an optional string.
pub open spec fn text_view(s: Option<String>) -> Option<Seq<char>> {
    match s {
        Some(t) => Some(t@),
        None => None,
    }
}

/// The values of a sequence of interactions.
pub open spec fn interactions_view(items: Seq<Interaction>) -> Seq<InteractionView> {
    items.map_values(|i: Interaction| i@)
}

impl View for ChatLog {
    type V = ChatLogView;

    open spec fn view(&self) -> ChatLogView {
        ChatLogView {
            uuid: self.uuid,
            title: self.title@,
            model: text_view(self.model),
            status: text_view(self.status),
            system_prompt: text_view(self.system_prompt),
            interactions: interactions_view(self.interactions@),
        }
    }
}

impl ChatLog {
    /// A new local session with a fresh identifier and no interactions.
    pub fn new(title: String) -> (log: ChatLog)
        ensures
            log@.title == title@,
            log@.model is None,
            log@.status == Some("local"@),
            log@.system_prompt is None,
            log@.interactions.len() == 0,
    {
        ChatLog {
            uuid: Uuid::new_v4(),
            title,
            model: None,
            status: Some(String::from_str("local")),
            system_prompt: None,
            interactions: Vec::new(),
        }
    }

    /// The creation time of the whole log: that of its first interaction.
    /// Where there is none, or the first entry is an attachment, the clock is
    /// read instead.
    pub fn get_creation_time(&self) -> (t: Timestamp)
        ensures
            self@.interactions.len() > 0 ==> match self@.interactions[0] {
                InteractionView::User { created_at, .. } => t == created_at,
                InteractionView::Ai { created_at, .. } => t == created_at,
                InteractionView::Error { created_at, .. } => t == created_at,
                InteractionView::Attachment { .. } => true,
            },
    {
        if self.interactions.len() == 0 {
            return Timestamp::now();
        }
        match &self.interactions[0] {
            Interaction::User { created_at, .. } => *created_at,
            Interaction::Ai { created_at, .. } => *created_at,
            Interaction::Error { created_at, .. } => *created_at,
            Interaction::Attachment { .. } => Timestamp::now(),
        }
    }

    /// Whether the log ends with a model turn.
    pub fn is_finished_correctly(&self) -> (r: bool)
        ensures
            r == (self@.interactions.len() > 0 && self@.interactions.last() is Ai),
    {
        let n: usize = self.interactions.len();
        if n == 0 {
            return false;
        }
        match &self.interactions[n - 1] {
            Interaction::Ai { .. } => true,
            _ => false,
        }
    }
}

/// The kind of a wire frame. The numeric values are fixed by the protocol.
#[derive(PartialEq, Eq, Structural, Debug, Clone, Copy)]
pub enum PacketType {
    CmdAuthRequest,
    CmdAuthChallenge,
    CmdAuthResponse,
    CmdExec,
    CmdList,
    CmdGet,
    CmdDelete,
    CmdResend,
    CmdUpdate,
    AttachmentChunk,
    Ack,
    ResponseList,
    ResponseChatLog,
    Error,
}

impl PacketType {
    /// The byte that stands for this packet type on the wire.
    pub open spec fn wire_value(self) -> u8 {
        match self {
            PacketType::CmdAuthRequest => 0x00u8,
            PacketType::CmdAuthChallenge => 0x8Au8,
            PacketType::CmdAuthResponse => 0x0Au8,
            PacketType::CmdExec => 0x01u8,
            PacketType::CmdList => 0x02u8,
            PacketType::CmdGet => 0x03u8,
            PacketType::CmdDelete => 0x04u8,
            PacketType::CmdResend => 0x05u8,
            PacketType::CmdUpdate => 0x06u8,
            PacketType::AttachmentChunk => 0x10u8,
            PacketType::Ack => 0x80u8,
            PacketType::ResponseList => 0x81u8,
            PacketType::ResponseChatLog => 0x82u8,
            PacketType::Error => 0xFFu8,
        }
    }

    /// The packet type that a wire byte stands for, if any.
    pub open spec fn of_wire(value: u8) -> Option<PacketType> {
        if value == 0x00u8 {
            Some(PacketType::CmdAuthRequest)
        } else if value == 0x8Au8 {
            Some(PacketType::CmdAuthChallenge)
        } else if value == 0x0Au8 {
            Some(PacketType::CmdAuthResponse)
        } else if value == 0x01u8 {
            Some(PacketType::CmdExec)
        } else if value == 0x02u8 {
            Some(PacketType::CmdList)
        } else if value == 0x03u8 {
            Some(PacketType::CmdGet)
        } else if value == 0x04u8 {
            Some(PacketType::CmdDelete)
        } else if value == 0x05u8 {
            Some(PacketType::CmdResend)
        } else if value == 0x06u8 {
            Some(PacketType::CmdUpdate)
        } else if value == 0x10u8 {
            Some(PacketType::AttachmentChunk)
        } else if value == 0x80u8 {
            Some(PacketType::Ack)
        } else if value == 0x81u8 {
            Some(PacketType::ResponseList)
        } else if value == 0x82u8 {
            Some(PacketType::ResponseChatLog)
        } else if value == 0xFFu8 {
            Some(PacketType::Error)
        } else {
            None
        }
    }

    /// Decodes a wire byte; `None` for a byte that names no packet type.
    pub fn from_u8(value: u8) -> (r: Option<PacketType>)
        ensures
            r == Self::of_wire(value),
            r matches Some(t) ==> t.wire_value() == value,
    {
        match value {
            0x00 => Some(PacketType::CmdAuthRequest),
            0x8A => Some(PacketType::CmdAuthChallenge),
            0x0A => Some(PacketType::CmdAuthResponse),
            0x01 => Some(PacketType::CmdExec),
            0x02 => Some(PacketType::CmdList),
            0x03 => Some(PacketType::CmdGet),
            0x04 => Some(PacketType::CmdDelete),
            0x05 => Some(PacketType::CmdResend),
            0x06 => Some(PacketType::CmdUpdate),
            0x10 => Some(PacketType::AttachmentChunk),
            0x80 => Some(PacketType::Ack),
            0x81 => Some(PacketType::ResponseList),
            0x82 => Some(PacketType::ResponseChatLog),
            0xFF => Some(PacketType::Error),
            _ => None,
        }
    }

    /// The name of the packet type as it is shown in messages.
    pub open spec fn name(self) -> Seq<char> {
        match self {
            PacketType::CmdAuthRequest => "CmdAuthRequest"@,
            PacketType::CmdAuthChallenge => "CmdAuthChallenge"@,
            PacketType::CmdAuthResponse => "CmdAuthResponse"@,
            PacketType::CmdExec => "CmdExec"@,
            PacketType::CmdList => "CmdList"@,
            PacketType::CmdGet => "CmdGet"@,
            PacketType::CmdDelete => "CmdDelete"@,
            PacketType::CmdResend => "CmdResend"@,
            PacketType::CmdUpdate => "CmdUpdate"@,
            PacketType::AttachmentChunk => "AttachmentChunk"@,
            PacketType::Ack => "Ack"@,
            PacketType::ResponseList => "ResponseList"@,
            PacketType::ResponseChatLog => "ResponseChatLog"@,
            PacketType::Error => "Error"@,
        }
    }

    /// The name of the packet type as it is shown in messages.
    pub fn as_str(self) -> (name: &'static str)
        ensures
            name@ == self.name(),
    {
        match self {
            PacketType::CmdAuthRequest => "CmdAuthRequest",
            PacketType::CmdAuthChallenge => "CmdAuthChallenge",
            PacketType::CmdAuthResponse => "CmdAuthResponse",
            PacketType::CmdExec => "CmdExec",
            PacketType::CmdList => "CmdList",
            PacketType::CmdGet => "CmdGet",
            PacketType::CmdDelete => "CmdDelete",
            PacketType::CmdResend => "CmdResend",
            PacketType::CmdUpdate => "CmdUpdate",
            PacketType::AttachmentChunk => "AttachmentChunk",
            PacketType::Ack => "Ack",
            PacketType::ResponseList => "ResponseList",
            PacketType::ResponseChatLog => "ResponseChatLog",
            PacketType::Error => "Error",
        }
    }

    /// The wire byte of this packet type.
    pub fn to_u8(self) -> (value: u8)
        ensures
            value == self.wire_value(),
            Self::of_wire(value) == Some(self),
    {
        match self {
            PacketType::CmdAuthRequest => 0x00,
            PacketType::CmdAuthChallenge => 0x8A,
            PacketType::CmdAuthResponse => 0x0A,
            PacketType::CmdExec => 0x01,
            PacketType::CmdList => 0x02,
            PacketType::CmdGet => 0x03,
            PacketType::CmdDelete => 0x04,
            PacketType::CmdResend => 0x05,
            PacketType::CmdUpdate => 0x06,
            PacketType::AttachmentChunk => 0x10,
            PacketType::Ack => 0x80,
            PacketType::ResponseList => 0x81,
            PacketType::ResponseChatLog => 0x82,
            PacketType::Error => 0xFF,
        }
    }
}

/// Every packet type decodes from its own wire byte, and a byte that decodes
/// gives back a type with that wire byte.
pub proof fn lemma_packet_type_wire_roundtrip(t: PacketType, value: u8)
    ensures
        PacketType::of_wire(t.wire_value()) == Some(t),
        PacketType::of_wire(value) matches Some(u) ==> u.wire_value() == value,
{
}

} // verus!
