//! Suppliers hand out the backend to read from and the backend to write
//! to: one shared backend, or a split pair.

use vstd::prelude::*;

verus! {

/// Hands out the backend to read from and the backend to write to.
pub trait ClientSupplier<ReadClient, WriteClient>: Sized {
    spec fn read_of(s: Self) -> ReadClient;

    spec fn with_read(s: Self, c: ReadClient) -> Self;

    spec fn write_of(s: Self) -> WriteClient;

    spec fn with_write(s: Self, c: WriteClient) -> Self;

    fn read_client(&mut self) -> (r: &mut ReadClient)
        ensures
            *r == Self::read_of(*old(self)),
            *final(self) == Self::with_read(*old(self), *final(r)),
    ;

    fn write_client(&mut self) -> (r: &mut WriteClient)
        ensures
            *r == Self::write_of(*old(self)),
            *final(self) == Self::with_write(*old(self), *final(r)),
    ;
}

/// One backend serving both roles.
pub struct SingleConfigSupplier<C> {
    client: C,
}

impl<C> ClientSupplier<C, C> for SingleConfigSupplier<C> {
    closed spec fn read_of(s: Self) -> C {
        s.client
    }

    closed spec fn with_read(s: Self, c: C) -> Self {
        SingleConfigSupplier { client: c }
    }

    closed spec fn write_of(s: Self) -> C {
        s.client
    }

    closed spec fn with_write(s: Self, c: C) -> Self {
        SingleConfigSupplier { client: c }
    }

    fn read_client(&mut self) -> (r: &mut C) {
        &mut self.client
    }

    fn write_client(&mut self) -> (r: &mut C) {
        &mut self.client
    }
}

/// Separate backends for reading and writing.
pub struct SplitConfigSupplier<RC, WC> {
    read_client: RC,
    write_client: WC,
}

impl<RC, WC> ClientSupplier<RC, WC> for SplitConfigSupplier<RC, WC> {
    closed spec fn read_of(s: Self) -> RC {
        s.read_client
    }

    closed spec fn with_read(s: Self, c: RC) -> Self {
        SplitConfigSupplier { read_client: c, ..s }
    }

    closed spec fn write_of(s: Self) -> WC {
        s.write_client
    }

    closed spec fn with_write(s: Self, c: WC) -> Self {
        SplitConfigSupplier { write_client: c, ..s }
    }

    fn read_client(&mut self) -> (r: &mut RC) {
        &mut self.read_client
    }

    fn write_client(&mut self) -> (r: &mut WC) {
        &mut self.write_client
    }
}

/// Wraps one backend as a supplier for both roles.
pub fn single_config_supplier<C>(client: C) -> (r: SingleConfigSupplier<C>)
    ensures
        SingleConfigSupplier::<C>::read_of(r) == client,
{
    SingleConfigSupplier { client }
}

/// Pairs a reading backend with a writing one.
pub fn split_config_supplier<RC, WC>(read_client: RC, write_client: WC) -> (r: SplitConfigSupplier<
    RC,
    WC,
>)
    ensures
        SplitConfigSupplier::<RC, WC>::read_of(r) == read_client,
        SplitConfigSupplier::<RC, WC>::write_of(r) == write_client,
{
    SplitConfigSupplier { read_client, write_client }
}

} // verus!
