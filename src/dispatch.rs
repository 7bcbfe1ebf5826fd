use vstd::prelude::*;

use crate::message::{event_opt_view, CommandView, EventView, FolderCommand, FolderEvent};

verus! {

/// A command with an optional completion token. Once the command has settled, in success
/// or in failure, a `Callback` message carrying the token is sent, so that whoever
/// issued the command (a confirmation dialog) can close itself.
#[derive(Debug)]
pub struct WrappedFolderCommand {
    pub command: FolderCommand,
    pub callback: Option<u64>,
}

#[derive(Debug)]
pub enum AppCommand {
    Folder(WrappedFolderCommand),
}

#[derive(Debug)]
pub enum AppEvent {
    Folder(FolderEvent),
}

/// What travels on the message channel to the drain loop.
#[derive(Debug)]
pub enum AppMessage {
    Command(AppCommand),
    Event(AppEvent),
    Callback(u64),
}

pub enum MessageView {
    Command { command: CommandView, callback: Option<u64> },
    Event(EventView),
    Callback(u64),
}

impl View for AppMessage {
    type V = MessageView;

    open spec fn view(&self) -> MessageView {
        match self {
            AppMessage::Command(AppCommand::Folder(w)) => MessageView::Command {
                command: w.command@,
                callback: w.callback,
            },
            AppMessage::Event(AppEvent::Folder(e)) => MessageView::Event(e@),
            AppMessage::Callback(token) => MessageView::Callback(*token),
        }
    }
}

pub open spec fn messages_view(s: Seq<AppMessage>) -> Seq<MessageView> {
    s.map_values(|m: AppMessage| m@)
}

/// The messages that close a command: its event, if it raised one, then its completion
/// token, if it carries one.
pub open spec fn completion(event: Option<EventView>, callback: Option<u64>) -> Seq<MessageView> {
    let first: Seq<MessageView> = match event {
        Some(e) => seq![MessageView::Event(e)],
        None => Seq::empty(),
    };
    match callback {
        Some(token) => first.push(MessageView::Callback(token)),
        None => first,
    }
}

/// The message that carries `command` and its completion token.
pub fn folder_command_message(command: FolderCommand, callback: Option<u64>) -> (m: AppMessage)
    ensures
        m@ == (MessageView::Command { command: command@, callback }),
{
    AppMessage::Command(AppCommand::Folder(WrappedFolderCommand { command, callback }))
}

/// The message that carries `event`.
pub fn folder_event_message(event: FolderEvent) -> (m: AppMessage)
    ensures
        m@ == MessageView::Event(event@),
{
    AppMessage::Event(AppEvent::Folder(event))
}

/// The messages to send once a command has settled.
pub fn completion_messages(event: Option<FolderEvent>, callback: Option<u64>) -> (r: Vec<
    AppMessage,
>)
    ensures
        messages_view(r@) == completion(event_opt_view(event), callback),
{
    let mut out: Vec<AppMessage> = Vec::new();
    match event {
        Some(e) => out.push(folder_event_message(e)),
        None => {},
    }
    match callback {
        Some(token) => out.push(AppMessage::Callback(token)),
        None => {},
    }
    proof {
        assert(messages_view(out@) =~= completion(event_opt_view(event), callback));
    }
    out
}

} // verus!
