//! A persistent singly linked list.
//!
//! The syntax tree keeps its sequences (arguments, parameters, the statements
//! of a block) in such lists, so that the evaluator can hold on to the rest of
//! a sequence without copying it.

use vstd::prelude::*;
use std::rc::Rc;

verus! {

pub enum List<T> {
    Nil,
    Cons(T, Rc<List<T>>),
}

/// The list that holds the items of `items`, in order.
pub open spec fn list_of<T>(items: Seq<T>) -> Rc<List<T>>
    decreases items.len(),
{
    if items.len() == 0 {
        Rc::new(List::Nil)
    } else {
        Rc::new(List::Cons(items[0], list_of(items.drop_first())))
    }
}

/// The items of a list, in order.
pub open spec fn items_of<T>(list: List<T>) -> Seq<T>
    decreases list,
{
    match list {
        List::Nil => Seq::empty(),
        List::Cons(head, tail) => seq![head] + items_of(*tail),
    }
}

impl<T> View for List<T> {
    type V = Seq<T>;

    open spec fn view(&self) -> Seq<T> {
        items_of(*self)
    }
}

pub proof fn lemma_list_of_view<T>(items: Seq<T>)
    ensures
        list_of(items)@ == items,
    decreases items.len(),
{
    if items.len() > 0 {
        lemma_list_of_view(items.drop_first());
        assert(seq![items[0]] + items.drop_first() =~= items);
    } else {
        assert(items =~= Seq::empty());
    }
}

/// `Rc::clone`: another handle to the same value.
#[verifier::external_body]
pub(crate) fn share<T>(shared: &Rc<T>) -> (handle: Rc<T>)
    ensures
        handle == *shared,
{
    shared.clone()
}

impl<T> List<T> {
    /// The empty list.
    pub fn empty() -> (list: Rc<List<T>>)
        ensures
            list == list_of(Seq::<T>::empty()),
            *list == List::<T>::Nil,
    {
        Rc::new(List::Nil)
    }

    /// The list with `head` in front of `tail`.
    pub fn cons(head: T, tail: Rc<List<T>>) -> (list: Rc<List<T>>)
        ensures
            *list == List::Cons(head, tail),
    {
        Rc::new(List::Cons(head, tail))
    }

    /// The number of items, as far as `usize` can count.
    pub fn len(&self) -> (count: usize)
        ensures
            count == if self@.len() > usize::MAX {
                usize::MAX
            } else {
                self@.len() as usize
            },
    {
        let mut count: usize = 0;
        let mut rest: &List<T> = self;
        loop
            invariant
                self@.len() <= usize::MAX ==> count + rest@.len() == self@.len(),
                self@.len() > usize::MAX ==> count + rest@.len() > usize::MAX || count == usize::MAX,
            decreases rest@.len(),
        {
            match rest {
                List::Nil => {
                    return count;
                },
                List::Cons(_, tail) => {
                    if count < usize::MAX {
                        count = count + 1;
                    }
                    rest = &**tail;
                },
            }
        }
    }

    /// The list of the items of `items`, in order.
    pub fn from_vec(items: Vec<T>) -> (list: Rc<List<T>>)
        ensures
            list == list_of(items@),
            list@ == items@,
    {
        let ghost all = items@;
        let mut items = items;
        let mut list: Rc<List<T>> = Rc::new(List::Nil);
        while items.len() > 0
            invariant
                items@.len() <= all.len(),
                items@ == all.subrange(0, items@.len() as int),
                list == list_of(all.subrange(items@.len() as int, all.len() as int)),
            decreases items@.len(),
        {
            let ghost n = items@.len() as int;
            let item = items.pop().unwrap();
            proof {
                let tail = all.subrange(n, all.len() as int);
                let longer = all.subrange(n - 1, all.len() as int);
                assert(longer.drop_first() =~= tail);
                assert(longer[0] == item);
                assert(items@ =~= all.subrange(0, n - 1));
            }
            list = Rc::new(List::Cons(item, list));
        }
        proof {
            assert(all.subrange(0, all.len() as int) =~= all);
            lemma_list_of_view(all);
        }
        list
    }
}

} // verus!
