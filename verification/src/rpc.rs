//! The requests and responses of the node, as far as the trace needs them, and
//! the messages that stand for them in the log.

use vstd::prelude::*;
use crate::event::{texts_view, Message, MessageView};
use crate::peer::{node_id_label, node_id_labels, node_id_text};

verus! {

/// What a request asks for. The log has a message for a ping and for a search
/// for nodes; the other kinds have none.
#[derive(Clone, Debug, PartialEq, Eq)]
pub enum RequestBody {
    Ping { enr_seq: u64 },
    FindNode { distances: Vec<u64> },
    Talk,
    RegisterTopic,
    TopicQuery,
}

/// A request: its identifier in text form, and what it asks for.
#[derive(Clone, Debug, PartialEq, Eq)]
pub struct Request {
    pub id: String,
    pub body: RequestBody,
}

/// What a response answers. The log has a message for a pong and for a list of
/// nodes; the other kinds have none.
#[derive(Clone, Debug, PartialEq, Eq)]
pub enum ResponseBody {
    Pong { enr_seq: u64, ip: String, port: u16 },
    Nodes { total: u64, nodes: Vec<[u8; 32]> },
    Talk,
    Ticket,
    RegisterConfirmation,
}

/// A response: the identifier of its request in text form, and what it answers.
#[derive(Clone, Debug, PartialEq, Eq)]
pub struct Response {
    pub id: String,
    pub body: ResponseBody,
}

/// The message that stands for a request, or nothing for a kind that the log
/// does not represent.
pub open spec fn request_message(request: Request) -> Option<MessageView> {
    match request.body {
        RequestBody::Ping { enr_seq } => Some(
            MessageView::Ping { request_id: request.id@, enr_seq },
        ),
        RequestBody::FindNode { distances } => Some(
            MessageView::FindNode { request_id: request.id@, distances: distances@ },
        ),
        _ => None,
    }
}

/// The message that stands for a response, or nothing for a kind that the log
/// does not represent. The nodes of a list are named by their short text
/// forms, in the order of the list.
pub open spec fn response_message(response: Response) -> Option<MessageView> {
    match response.body {
        ResponseBody::Pong { enr_seq, ip, port } => Some(
            MessageView::Pong {
                request_id: response.id@,
                enr_seq,
                recipient_ip: ip@,
                recipient_port: port as u32,
            },
        ),
        ResponseBody::Nodes { total, nodes } => Some(
            MessageView::Nodes {
                request_id: response.id@,
                total,
                node_ids: node_id_labels(nodes@),
            },
        ),
        _ => None,
    }
}

/// A copy of `words`.
fn copy_words(words: &Vec<u64>) -> (copy: Vec<u64>)
    ensures
        copy@ == words@,
{
    let mut copy: Vec<u64> = Vec::new();
    let mut i: usize = 0;
    while i < words.len()
        invariant
            i <= words@.len(),
            copy@ == words@.take(i as int),
        decreases words@.len() - i,
    {
        copy.push(words[i]);
        proof {
            assert(copy@ =~= words@.take(i + 1));
        }
        i += 1;
    }
    proof {
        assert(words@.take(i as int) =~= words@);
    }
    copy
}

/// The short text forms of `nodes`, in the order of the list.
pub fn label_nodes(nodes: &Vec<[u8; 32]>) -> (labels: Vec<String>)
    ensures
        texts_view(labels@) == node_id_labels(nodes@),
{
    let mut labels: Vec<String> = Vec::new();
    let mut i: usize = 0;
    while i < nodes.len()
        invariant
            i <= nodes@.len(),
            labels@.len() == i,
            forall|j: int| 0 <= j < i ==> (#[trigger] labels@[j])@ == node_id_label(nodes@[j]@),
        decreases nodes@.len() - i,
    {
        labels.push(node_id_text(&nodes[i]));
        i += 1;
    }
    proof {
        assert(texts_view(labels@) =~= node_id_labels(nodes@));
    }
    labels
}

/// The message that stands for `request` in the log, or nothing where the log
/// has no message for its kind.
pub fn message_of_request(request: &Request) -> (r: Option<Message>)
    ensures
        match r {
            Some(message) => request_message(*request) == Some(message@),
            None => request_message(*request) is None,
        },
{
    match &request.body {
        RequestBody::Ping { enr_seq } => Some(
            Message::Ping { request_id: request.id.clone(), enr_seq: *enr_seq },
        ),
        RequestBody::FindNode { distances } => Some(
            Message::FindNode { request_id: request.id.clone(), distances: copy_words(distances) },
        ),
        _ => None,
    }
}

/// The message that stands for `response` in the log, or nothing where the log
/// has no message for its kind.
pub fn message_of_response(response: &Response) -> (r: Option<Message>)
    ensures
        match r {
            Some(message) => response_message(*response) == Some(message@),
            None => response_message(*response) is None,
        },
{
    match &response.body {
        ResponseBody::Pong { enr_seq, ip, port } => Some(
            Message::Pong {
                request_id: response.id.clone(),
                enr_seq: *enr_seq,
                recipient_ip: ip.clone(),
                recipient_port: *port as u32,
            },
        ),
        ResponseBody::Nodes { total, nodes } => Some(
            Message::Nodes {
                request_id: response.id.clone(),
                total: *total,
                node_ids: label_nodes(nodes),
            },
        ),
        _ => None,
    }
}

} // verus!
