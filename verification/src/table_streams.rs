//! Streams in a table of resources.

use wasmtime::component::Resource;

use vstd::prelude::*;

use crate::outside::{has_rep, index, rep_of};
use crate::stream::{HostInputStream, HostOutputStream};
use crate::table::{InternalInputStream, Item, Table, TableError, TableView};

verus! {

/// Marks the handles to input streams.
pub struct InputStream;

/// Marks the handles to output streams.
pub struct OutputStream;

/// The result of adding a stream: a handle to the key that it is under.
pub open spec fn handle_result<T: 'static>(
    key: Result<u32, TableError>,
    r: Result<Resource<T>, TableError>,
) -> bool {
    match key {
        Ok(rep) => r matches Ok(handle) && has_rep(handle, rep),
        Err(e) => r == Err::<Resource<T>, TableError>(e),
    }
}

impl<I: ?Sized, O: ?Sized, F, X> TableView<I, O, F, X> {
    /// Adding `item` gives `post` and a handle `r`.
    pub open spec fn adds<T: 'static>(
        self,
        item: Item<I, O, F, X>,
        parent: Option<u32>,
        post: Self,
        r: Result<Resource<T>, TableError>,
    ) -> bool {
        exists|key: Result<u32, TableError>| #[trigger]
            self.pushes(item, parent, post, key) && handle_result(key, r)
    }

    /// The input stream under `key`.
    pub open spec fn input(self, key: u32) -> Result<InternalInputStream<I, F>, TableError> {
        match self.lookup(key) {
            Ok(Item::Input(stream)) => Ok(stream),
            Ok(_) => Err(TableError::WrongType),
            Err(e) => Err(e),
        }
    }

    /// The input stream of the host under `key`.
    pub open spec fn host_input(self, key: u32) -> Result<Box<I>, TableError> {
        match self.input(key) {
            Ok(InternalInputStream::Host(stream)) => Ok(stream),
            Ok(_) => Err(TableError::WrongType),
            Err(e) => Err(e),
        }
    }

    /// `post` is the table with `stream` for the input stream of the host under
    /// `key`.
    pub open spec fn replaces_host_input(self, key: u32, stream: &I, post: Self) -> bool {
        exists|boxed: Box<I>|
            #![trigger self.with(key, Item::Input(InternalInputStream::Host(boxed)))]
            &*boxed == stream && post == self.with(
                key,
                Item::Input(InternalInputStream::Host(boxed)),
            )
    }

    /// The output stream under `key`.
    pub open spec fn output(self, key: u32) -> Result<Box<O>, TableError> {
        match self.lookup(key) {
            Ok(Item::Output(stream)) => Ok(stream),
            Ok(_) => Err(TableError::WrongType),
            Err(e) => Err(e),
        }
    }

    /// `post` is the table with `stream` for the output stream under `key`.
    pub open spec fn replaces_output(self, key: u32, stream: &O, post: Self) -> bool {
        exists|boxed: Box<O>|
            #![trigger self.with(key, Item::Output(boxed))]
            &*boxed == stream && post == self.with(key, Item::Output(boxed))
    }

    /// Putting a resource where it already is changes nothing.
    proof fn lemma_with_same(self, key: u32)
        ensures
            self.entries.contains_key(key) ==> self.with(key, self.entries[key].item) == self,
    {
        if self.entries.contains_key(key) {
            assert(self.with(key, self.entries[key].item).entries =~= self.entries);
        }
    }

    /// Deleting what `found` found under `key` gives `post` and `r`: it goes,
    /// unless it has children.
    pub open spec fn deletes<S>(
        self,
        key: u32,
        found: Result<S, TableError>,
        post: Self,
        r: Result<S, TableError>,
    ) -> bool {
        if found is Ok && self.has_children(key) {
            &&& r == Err::<S, _>(TableError::HasChildren)
            &&& post == self
        } else if found is Ok {
            &&& r == found
            &&& post == TableView { entries: self.entries.remove(key), ..self }
        } else {
            &&& r == found
            &&& post == self
        }
    }
}

/// Extension trait for managing the input streams in a table, those of the host
/// and those that read files.
pub trait InternalTableStreamExt {
    /// An input stream in the table.
    type Internal;

    /// The table is sound.
    spec fn is_sound(&self) -> bool;

    /// Push an input stream into the table, returning the table index.
    fn push_internal_input_stream(&mut self, istream: Self::Internal) -> (r: Result<
        Resource<InputStream>,
        TableError,
    >)
        requires
            old(self).is_sound(),
        ensures
            final(self).is_sound(),
    ;

    /// Same as [`push_internal_input_stream`](Self::push_internal_input_stream)
    /// except assigns a parent resource to the input stream created.
    fn push_internal_input_stream_child<T: 'static>(
        &mut self,
        istream: Self::Internal,
        parent: Resource<T>,
    ) -> (r: Result<Resource<InputStream>, TableError>)
        requires
            old(self).is_sound(),
        ensures
            final(self).is_sound(),
    ;

    /// Get a mutable reference to an input stream in the table.
    fn get_internal_input_stream_mut(&mut self, fd: &Resource<InputStream>) -> (r: Result<
        &mut Self::Internal,
        TableError,
    >)
        requires
            old(self).is_sound(),
        ensures
            final(self).is_sound(),
    ;

    /// Remove an input stream from the table.
    fn delete_internal_input_stream(&mut self, fd: Resource<InputStream>) -> (r: Result<
        Self::Internal,
        TableError,
    >)
        requires
            old(self).is_sound(),
        ensures
            final(self).is_sound(),
    ;
}

/// The input streams in a table, those of the host and those that read files.
impl<I: ?Sized, O: ?Sized, F, X> Table<I, O, F, X> {
    /// Push an input stream into a table, returning the table index.
    pub fn push_internal_input_stream(&mut self, istream: InternalInputStream<I, F>) -> (r: Result<
        Resource<InputStream>,
        TableError,
    >)
        requires
            old(self).wf(),
        ensures
            final(self).wf(),
            old(self)@.adds(Item::Input(istream), None, final(self)@, r),
    {
        Ok(Resource::new_own(self.push(Item::Input(istream))?))
    }

    /// Same as [`push_internal_input_stream`](Self::push_internal_input_stream)
    /// except assigns a parent resource to the input stream created.
    pub fn push_internal_input_stream_child<T: 'static>(
        &mut self,
        istream: InternalInputStream<I, F>,
        parent: Resource<T>,
    ) -> (r: Result<Resource<InputStream>, TableError>)
        requires
            old(self).wf(),
        ensures
            final(self).wf(),
            old(self)@.adds(
                Item::Input(istream),
                Some(rep_of(parent)),
                final(self)@,
                r,
            ),
    {
        Ok(Resource::new_own(self.push_child(Item::Input(istream), index(&parent))?))
    }
}

impl<I: ?Sized, O: ?Sized, F, X> InternalTableStreamExt for Table<I, O, F, X> {
    type Internal = InternalInputStream<I, F>;

    open spec fn is_sound(&self) -> bool {
        self.wf()
    }

    fn push_internal_input_stream(&mut self, istream: InternalInputStream<I, F>) -> (r: Result<
        Resource<InputStream>,
        TableError,
    >)
        ensures
            old(self)@.adds(Item::Input(istream), None, final(self)@, r),
    {
        Table::push_internal_input_stream(self, istream)
    }

    fn push_internal_input_stream_child<T: 'static>(
        &mut self,
        istream: InternalInputStream<I, F>,
        parent: Resource<T>,
    ) -> (r: Result<Resource<InputStream>, TableError>)
        ensures
            old(self)@.adds(
                Item::Input(istream),
                Some(rep_of(parent)),
                final(self)@,
                r,
            ),
    {
        Table::push_internal_input_stream_child(self, istream, parent)
    }

    fn get_internal_input_stream_mut(&mut self, fd: &Resource<InputStream>) -> (r: Result<
        &mut InternalInputStream<I, F>,
        TableError,
    >)
        ensures
            match r {
                Ok(stream) => {
                    &&& old(self)@.input(rep_of(*fd)) == Ok::<_, TableError>(*stream)
                    &&& final(self)@ == old(self)@.with(rep_of(*fd), Item::Input(*final(stream)))
                },
                Err(e) => {
                    &&& old(self)@.input(rep_of(*fd)) == Err::<InternalInputStream<I, F>, _>(e)
                    &&& final(self)@ == old(self)@
                },
            },
    {
        let key: u32 = index(fd);
        proof {
            self@.lemma_with_same(key);
        }
        match self.get_mut(key)? {
            Item::Input(stream) => Ok(stream),
            _ => Err(TableError::WrongType),
        }
    }

    fn delete_internal_input_stream(&mut self, fd: Resource<InputStream>) -> (r: Result<
        InternalInputStream<I, F>,
        TableError,
    >)
        ensures
            old(self)@.deletes(
                rep_of(fd),
                old(self)@.input(rep_of(fd)),
                final(self)@,
                r,
            ),
    {
        let key: u32 = index(&fd);
        match self.get(key)? {
            Item::Input(_) => {},
            _ => return Err(TableError::WrongType),
        }
        match self.remove_entry(key)? {
            Item::Input(stream) => Ok(stream),
            _ => Err(TableError::WrongType),
        }
    }
}

/// The streams of the host in a table. Nothing is asked of their types, so that
/// these methods also serve tables of trait objects.
impl<I: ?Sized, O: ?Sized, F, X> Table<I, O, F, X> {
    /// Push an input stream into a table, returning the table index.
    pub fn push_input_stream(&mut self, istream: Box<I>) -> (r: Result<
        Resource<InputStream>,
        TableError,
    >)
        requires
            old(self).wf(),
        ensures
            final(self).wf(),
            old(self)@.adds(
                Item::Input(InternalInputStream::Host(istream)),
                None,
                final(self)@,
                r,
            ),
    {
        InternalTableStreamExt::push_internal_input_stream(self, InternalInputStream::Host(istream))
    }

    /// Same as [`push_input_stream`](Self::push_input_stream) except assigns a
    /// parent resource to the input stream created.
    pub fn push_input_stream_child<T: 'static>(
        &mut self,
        istream: Box<I>,
        parent: Resource<T>,
    ) -> (r: Result<Resource<InputStream>, TableError>)
        requires
            old(self).wf(),
        ensures
            final(self).wf(),
            old(self)@.adds(
                Item::Input(InternalInputStream::Host(istream)),
                Some(rep_of(parent)),
                final(self)@,
                r,
            ),
    {
        InternalTableStreamExt::push_internal_input_stream_child(
            self,
            InternalInputStream::Host(istream),
            parent,
        )
    }

    /// Get a mutable reference to an input stream in a table.
    pub fn get_input_stream_mut(&mut self, fd: &Resource<InputStream>) -> (r: Result<
        &mut I,
        TableError,
    >)
        requires
            old(self).wf(),
        ensures
            final(self).wf(),
            match r {
                Ok(stream) => {
                    &&& old(self)@.host_input(rep_of(*fd)) matches Ok(boxed) && &*boxed == &*stream
                    &&& old(self)@.replaces_host_input(rep_of(*fd), &*final(stream), final(self)@)
                },
                Err(e) => {
                    &&& old(self)@.host_input(rep_of(*fd)) == Err::<Box<I>, _>(e)
                    &&& final(self)@ == old(self)@
                },
            },
    {
        proof {
            self@.lemma_with_same(rep_of(*fd));
        }
        match self.get_internal_input_stream_mut(fd)? {
            InternalInputStream::Host(stream) => Ok(&mut **stream),
            _ => Err(TableError::WrongType),
        }
    }

    /// Remove an input stream from a table.
    pub fn delete_input_stream(&mut self, fd: Resource<InputStream>) -> (r: Result<
        Box<I>,
        TableError,
    >)
        requires
            old(self).wf(),
        ensures
            final(self).wf(),
            old(self)@.deletes(
                rep_of(fd),
                old(self)@.host_input(rep_of(fd)),
                final(self)@,
                r,
            ),
    {
        let key: u32 = index(&fd);
        match self.get(key)? {
            Item::Input(InternalInputStream::Host(_)) => {},
            _ => return Err(TableError::WrongType),
        }
        match self.remove_entry(key)? {
            Item::Input(InternalInputStream::Host(stream)) => Ok(stream),
            _ => Err(TableError::WrongType),
        }
    }

    /// Push an output stream into a table, returning the table index.
    pub fn push_output_stream(&mut self, ostream: Box<O>) -> (r: Result<
        Resource<OutputStream>,
        TableError,
    >)
        requires
            old(self).wf(),
        ensures
            final(self).wf(),
            old(self)@.adds(Item::Output(ostream), None, final(self)@, r),
    {
        Ok(Resource::new_own(self.push(Item::Output(ostream))?))
    }

    /// Same as [`push_output_stream`](Self::push_output_stream) except assigns a
    /// parent resource to the output stream created.
    pub fn push_output_stream_child<T: 'static>(
        &mut self,
        ostream: Box<O>,
        parent: Resource<T>,
    ) -> (r: Result<Resource<OutputStream>, TableError>)
        requires
            old(self).wf(),
        ensures
            final(self).wf(),
            old(self)@.adds(
                Item::Output(ostream),
                Some(rep_of(parent)),
                final(self)@,
                r,
            ),
    {
        Ok(Resource::new_own(self.push_child(Item::Output(ostream), index(&parent))?))
    }

    /// Get a mutable reference to an output stream in a table.
    pub fn get_output_stream_mut(&mut self, fd: &Resource<OutputStream>) -> (r: Result<
        &mut O,
        TableError,
    >)
        requires
            old(self).wf(),
        ensures
            final(self).wf(),
            match r {
                Ok(stream) => {
                    &&& old(self)@.output(rep_of(*fd)) matches Ok(boxed) && &*boxed == &*stream
                    &&& old(self)@.replaces_output(rep_of(*fd), &*final(stream), final(self)@)
                },
                Err(e) => {
                    &&& old(self)@.output(rep_of(*fd)) == Err::<Box<O>, _>(e)
                    &&& final(self)@ == old(self)@
                },
            },
    {
        let key: u32 = index(fd);
        proof {
            self@.lemma_with_same(key);
        }
        match self.get_mut(key)? {
            Item::Output(stream) => Ok(&mut **stream),
            _ => Err(TableError::WrongType),
        }
    }

    /// Remove an output stream from a table.
    pub fn delete_output_stream(&mut self, fd: Resource<OutputStream>) -> (r: Result<
        Box<O>,
        TableError,
    >)
        requires
            old(self).wf(),
        ensures
            final(self).wf(),
            old(self)@.deletes(
                rep_of(fd),
                old(self)@.output(rep_of(fd)),
                final(self)@,
                r,
            ),
    {
        let key: u32 = index(&fd);
        match self.get(key)? {
            Item::Output(_) => {},
            _ => return Err(TableError::WrongType),
        }
        match self.remove_entry(key)? {
            Item::Output(stream) => Ok(stream),
            _ => Err(TableError::WrongType),
        }
    }
}

/// Extension trait for managing the streams of the host in a table.
pub trait TableStreamExt {
    /// The input streams of the host.
    type HostInput: HostInputStream + ?Sized;

    /// The output streams of the host.
    type HostOutput: HostOutputStream + ?Sized;

    /// The table is in order.
    spec fn in_order(&self) -> bool;

    /// Push an input stream into a table, returning the table index.
    fn push_input_stream(&mut self, istream: Box<Self::HostInput>) -> (r: Result<
        Resource<InputStream>,
        TableError,
    >)
        requires
            old(self).in_order(),
        ensures
            final(self).in_order(),
    ;

    /// Same as [`push_input_stream`](Self::push_input_stream) except assigns a
    /// parent resource to the input stream created.
    fn push_input_stream_child<T: 'static>(
        &mut self,
        istream: Box<Self::HostInput>,
        parent: Resource<T>,
    ) -> (r: Result<Resource<InputStream>, TableError>)
        requires
            old(self).in_order(),
        ensures
            final(self).in_order(),
    ;

    /// Get a mutable reference to an input stream in a table.
    fn get_input_stream_mut(&mut self, fd: &Resource<InputStream>) -> (r: Result<
        &mut Self::HostInput,
        TableError,
    >)
        requires
            old(self).in_order(),
        ensures
            final(self).in_order(),
    ;

    /// Remove an input stream from a table.
    fn delete_input_stream(&mut self, fd: Resource<InputStream>) -> (r: Result<
        Box<Self::HostInput>,
        TableError,
    >)
        requires
            old(self).in_order(),
        ensures
            final(self).in_order(),
    ;

    /// Push an output stream into a table, returning the table index.
    fn push_output_stream(&mut self, ostream: Box<Self::HostOutput>) -> (r: Result<
        Resource<OutputStream>,
        TableError,
    >)
        requires
            old(self).in_order(),
        ensures
            final(self).in_order(),
    ;

    /// Same as [`push_output_stream`](Self::push_output_stream) except assigns a
    /// parent resource to the output stream created.
    fn push_output_stream_child<T: 'static>(
        &mut self,
        ostream: Box<Self::HostOutput>,
        parent: Resource<T>,
    ) -> (r: Result<Resource<OutputStream>, TableError>)
        requires
            old(self).in_order(),
        ensures
            final(self).in_order(),
    ;

    /// Get a mutable reference to an output stream in a table.
    fn get_output_stream_mut(&mut self, fd: &Resource<OutputStream>) -> (r: Result<
        &mut Self::HostOutput,
        TableError,
    >)
        requires
            old(self).in_order(),
        ensures
            final(self).in_order(),
    ;

    /// Remove an output stream from a table.
    fn delete_output_stream(&mut self, fd: Resource<OutputStream>) -> (r: Result<
        Box<Self::HostOutput>,
        TableError,
    >)
        requires
            old(self).in_order(),
        ensures
            final(self).in_order(),
    ;
}

impl<
    I: HostInputStream + ?Sized,
    O: HostOutputStream + ?Sized,
    F,
    X,
> TableStreamExt for Table<I, O, F, X> {
    type HostInput = I;

    type HostOutput = O;

    open spec fn in_order(&self) -> bool {
        self.wf()
    }

    fn push_input_stream(&mut self, istream: Box<I>) -> (r: Result<
        Resource<InputStream>,
        TableError,
    >)
        ensures
            old(self)@.adds(
                Item::Input(InternalInputStream::Host(istream)),
                None,
                final(self)@,
                r,
            ),
    {
        Table::push_input_stream(self, istream)
    }

    fn push_input_stream_child<T: 'static>(&mut self, istream: Box<I>, parent: Resource<T>) -> (r:
        Result<Resource<InputStream>, TableError>)
        ensures
            old(self)@.adds(
                Item::Input(InternalInputStream::Host(istream)),
                Some(rep_of(parent)),
                final(self)@,
                r,
            ),
    {
        Table::push_input_stream_child(self, istream, parent)
    }

    fn get_input_stream_mut(&mut self, fd: &Resource<InputStream>) -> (r: Result<
        &mut I,
        TableError,
    >)
        ensures
            match r {
                Ok(stream) => {
                    &&& old(self)@.host_input(rep_of(*fd)) matches Ok(boxed) && &*boxed == &*stream
                    &&& old(self)@.replaces_host_input(rep_of(*fd), &*final(stream), final(self)@)
                },
                Err(e) => {
                    &&& old(self)@.host_input(rep_of(*fd)) == Err::<Box<I>, _>(e)
                    &&& final(self)@ == old(self)@
                },
            },
    {
        Table::get_input_stream_mut(self, fd)
    }

    fn delete_input_stream(&mut self, fd: Resource<InputStream>) -> (r: Result<
        Box<I>,
        TableError,
    >)
        ensures
            old(self)@.deletes(
                rep_of(fd),
                old(self)@.host_input(rep_of(fd)),
                final(self)@,
                r,
            ),
    {
        Table::delete_input_stream(self, fd)
    }

    fn push_output_stream(&mut self, ostream: Box<O>) -> (r: Result<
        Resource<OutputStream>,
        TableError,
    >)
        ensures
            old(self)@.adds(Item::Output(ostream), None, final(self)@, r),
    {
        Table::push_output_stream(self, ostream)
    }

    fn push_output_stream_child<T: 'static>(&mut self, ostream: Box<O>, parent: Resource<T>) -> (r:
        Result<Resource<OutputStream>, TableError>)
        ensures
            old(self)@.adds(
                Item::Output(ostream),
                Some(rep_of(parent)),
                final(self)@,
                r,
            ),
    {
        Table::push_output_stream_child(self, ostream, parent)
    }

    fn get_output_stream_mut(&mut self, fd: &Resource<OutputStream>) -> (r: Result<
        &mut O,
        TableError,
    >)
        ensures
            match r {
                Ok(stream) => {
                    &&& old(self)@.output(rep_of(*fd)) matches Ok(boxed) && &*boxed == &*stream
                    &&& old(self)@.replaces_output(rep_of(*fd), &*final(stream), final(self)@)
                },
                Err(e) => {
                    &&& old(self)@.output(rep_of(*fd)) == Err::<Box<O>, _>(e)
                    &&& final(self)@ == old(self)@
                },
            },
    {
        Table::get_output_stream_mut(self, fd)
    }

    fn delete_output_stream(&mut self, fd: Resource<OutputStream>) -> (r: Result<
        Box<O>,
        TableError,
    >)
        ensures
            old(self)@.deletes(
                rep_of(fd),
                old(self)@.output(rep_of(fd)),
                final(self)@,
                r,
            ),
    {
        Table::delete_output_stream(self, fd)
    }
}

} // verus!
