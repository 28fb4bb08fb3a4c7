//! Archive and disk-image backends: what each format means, which inputs are
//! refused and why, and what a listing, a test, a copy or an extraction
//! reports. Reading and writing files is left to the caller.
pub mod bytes;
pub mod codec;
pub mod der;
pub mod disc;
pub mod disk_extract;
pub mod disk_mount;
pub mod disk_run;
pub mod failure;
pub mod iso;
pub mod isz;
pub mod optical;
pub mod paths;
pub mod report;
pub mod text;
pub mod tzap;
pub mod vdi;
pub mod virtual_disk;
pub mod warc;
pub mod wim;
pub mod work;
pub mod x509_fixture;
pub mod xar;
