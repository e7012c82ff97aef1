//! The boot-time registry: one-shot-initializable slots, each written
//! exactly once during single-threaded init and read thereafter. The
//! write-once contract lives in the cell type itself rather than being
//! asserted by convention.

use vstd::prelude::*;

verus! {

/// A slot that can be written exactly once and read any number of times
/// afterwards. Writing an occupied slot fails and hands the value back;
/// reading an empty slot yields nothing.
#[derive(Debug)]
pub struct OnceCell<T> {
    value: Option<T>,
}

impl<T> OnceCell<T> {
    /// The stored value, if the cell has been initialized.
    pub closed spec fn value(self) -> Option<T> {
        self.value
    }

    /// The cell has been initialized.
    pub open spec fn is_init(self) -> bool {
        self.value() is Some
    }

    /// An empty cell.
    pub fn new() -> (r: Self)
        ensures
            r.value() is None,
    {
        OnceCell { value: None }
    }

    /// Initializes the cell. Fails, returning the offered value and
    /// leaving the cell as it was, exactly when the cell is already set.
    pub fn set(&mut self, v: T) -> (r: Result<(), T>)
        ensures
            old(self).value() is None ==> r is Ok && final(self).value() == Some(v),
            old(self).value() is Some ==> r == Err::<(), T>(v) && *final(self) == *old(self),
    {
        if self.value.is_some() {
            return Err(v);
        }
        self.value = Some(v);
        Ok(())
    }

    /// The stored value, or nothing if the cell was never initialized.
    pub fn get(&self) -> (r: Option<&T>)
        ensures
            (r is Some) <==> self.value() is Some,
            r matches Some(v) ==> self.value() == Some(*v),
    {
        self.value.as_ref()
    }
}

/// A boot module handed over to the kernel: a name and its raw contents.
#[derive(Debug)]
pub struct Module {
    pub name: String,
    pub data: Vec<u8>,
}

/// The global boot-time registry: one write-once slot per subsystem
/// handle, created empty before init and filled exactly once each as the
/// subsystems come up. The handle types belong to their subsystems and
/// are opaque to this registry.
#[derive(Debug)]
pub struct SystemState<Pmm, Pml4, Terminal, Acpi> {
    pub pmm: OnceCell<Pmm>,
    pub pml4: OnceCell<Pml4>,
    pub terminal: OnceCell<Terminal>,
    pub acpi: OnceCell<Acpi>,
    pub modules: OnceCell<Vec<Module>>,
}

impl<Pmm, Pml4, Terminal, Acpi> SystemState<Pmm, Pml4, Terminal, Acpi> {
    /// A fresh registry with every slot uninitialized.
    pub fn new() -> (r: Self)
        ensures
            r.pmm.value() is None,
            r.pml4.value() is None,
            r.terminal.value() is None,
            r.acpi.value() is None,
            r.modules.value() is None,
    {
        SystemState {
            pmm: OnceCell::new(),
            pml4: OnceCell::new(),
            terminal: OnceCell::new(),
            acpi: OnceCell::new(),
            modules: OnceCell::new(),
        }
    }
}

} // verus!
