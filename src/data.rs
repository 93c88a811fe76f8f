use vstd::prelude::*;
use crate::message::MessageData;

verus! {

/// The kind of event the chat gateway posts.
#[derive(Debug, Clone, Copy, PartialEq, Eq, Structural)]
pub enum PostType {
    Message,
    MessageSent,
    Request,
    Notice,
    MetaEvent,
}

/// The kind of a group message.
#[derive(Debug, Clone, Copy, PartialEq, Eq, Structural)]
pub enum MessageType {
    Normal,
    Anonymous,
    Notice,
}

/// The rank of a member in a group.
#[derive(Debug, Clone, Copy, PartialEq, Eq, Structural)]
pub enum GroupMemberRole {
    Owner,
    Admin,
    Member,
}

/// The sender of a group message.
#[derive(Debug, Clone)]
pub struct GroupMember {
    pub user_id: u64,
    pub nickname: String,
    pub level: Option<String>,
    pub role: Option<GroupMemberRole>,
}

/// A message posted to a group.
#[derive(Debug)]
pub struct GroupMessage {
    pub time: u64,
    pub self_id: u64,
    pub post_type: PostType,
    pub sub_type: MessageType,
    pub message_id: u32,
    pub user_id: u64,
    pub message: MessageData,
    pub raw_message: String,
    pub group_id: Option<u64>,
}

} // verus!
