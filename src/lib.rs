//! Staging of a packaged server bundle onto disk and supervision of the
//! single server process that runs from it.
//!
//! Everything here decides; nothing here touches the disk or the operating
//! system. The host reads the disk, hands plain observations to these
//! functions, and carries out the steps they return.
pub mod marker;
pub mod stager;
pub mod supervisor;
