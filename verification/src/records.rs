//! The two record types served by the remote API, their mathematical views,
//! and the one error kind of the library.

use vstd::prelude::*;

verus! {

/// A todo item: the wire field `userId` is carried here as `user_id`.
#[derive(Debug, PartialEq, Eq)]
pub struct Todo {
    pub user_id: u32,
    pub id: u32,
    pub title: String,
    pub completed: bool,
}

/// The mathematical value of a [`Todo`].
pub struct TodoView {
    pub user_id: u32,
    pub id: u32,
    pub title: Seq<char>,
    pub completed: bool,
}

impl View for Todo {
    type V = TodoView;

    open spec fn view(&self) -> TodoView {
        TodoView {
            user_id: self.user_id,
            id: self.id,
            title: self.title@,
            completed: self.completed,
        }
    }
}

impl DeepView for Todo {
    type V = TodoView;

    open spec fn deep_view(&self) -> TodoView {
        self.view()
    }
}

/// A post item: the wire field `userId` is carried here as `user_id`.
#[derive(Debug, PartialEq, Eq)]
pub struct Post {
    pub user_id: u32,
    pub id: u32,
    pub title: String,
    pub body: String,
}

/// The mathematical value of a [`Post`].
pub struct PostView {
    pub user_id: u32,
    pub id: u32,
    pub title: Seq<char>,
    pub body: Seq<char>,
}

impl View for Post {
    type V = PostView;

    open spec fn view(&self) -> PostView {
        PostView { user_id: self.user_id, id: self.id, title: self.title@, body: self.body@ }
    }
}

impl DeepView for Post {
    type V = PostView;

    open spec fn deep_view(&self) -> PostView {
        self.view()
    }
}

/// The single failure kind of the library: a fetch did not produce a record.
/// Transport failures, non-success statuses and malformed bodies all
/// collapse into this one value.
#[derive(Clone, Copy, Debug, PartialEq, Eq, Structural)]
pub struct FetchError;

} // verus!
