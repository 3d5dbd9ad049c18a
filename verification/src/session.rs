//! The record of one torrent's progress that is kept between runs of the
//! command-line client. Rates are in millionths of a KiB/s, other
//! fractional figures in millionths of their unit; times are seconds
//! since the Unix epoch.

use crate::text::{append_decimal, append_padded_decimal, decimal_text, padded_decimal};
use vstd::prelude::*;
use vstd::string::*;

verus! {

/// The version of the session format.
pub const SESSION_VERSION: u32 = 1;

/// What is kept of one torrent between runs.
#[derive(Debug, Clone)]
pub struct Session {
    pub version: u32,
    /// The info hash in hexadecimal.
    pub info_hash: String,
    pub torrent_name: String,
    pub torrent_path: String,
    /// Bytes; zero where it is not known.
    pub torrent_size: u64,
    pub client: String,
    pub client_version: Option<String>,
    /// Bytes uploaded over all runs.
    pub uploaded: u64,
    /// Bytes downloaded over all runs.
    pub downloaded: u64,
    pub upload_rate: i64,
    pub download_rate: i64,
    pub port: u16,
    pub completion_percent: i64,
    /// Seconds spent over all runs.
    pub total_seed_time_secs: u64,
    pub created_at: u64,
    pub updated_at: u64,
    pub stop_at_ratio: Option<i64>,
    pub stop_at_uploaded_gb: Option<i64>,
}

/// A session as a listing shows it.
#[derive(Debug, Clone)]
pub struct SessionSummary {
    pub info_hash: String,
    pub torrent_name: String,
    pub uploaded: u64,
    pub downloaded: u64,
    /// The ratio in millionths; none where it is without bound.
    pub ratio: Option<u64>,
    /// The ratio with three digits after the point, or `inf`.
    pub ratio_display: String,
    pub total_seed_time_secs: u64,
    pub updated_at: u64,
}

/// The ratio of a session in millionths, rounded down and capped: bytes
/// uploaded over the torrent's size. For a torrent without size it is
/// zero where nothing was uploaded, and without bound otherwise.
pub open spec fn session_ratio(uploaded: u64, torrent_size: u64) -> Option<u64> {
    if torrent_size > 0 {
        let exact = uploaded as nat * 1_000_000 / torrent_size as nat;
        Some(
            if exact > u64::MAX {
                u64::MAX
            } else {
                exact as u64
            },
        )
    } else if uploaded > 0 {
        None
    } else {
        Some(0u64)
    }
}

/// `uploaded / size` in thousandths, rounded to the nearest and, half way
/// between two, to the even one.
pub open spec fn thousandths(uploaded: nat, size: nat) -> nat {
    let whole = uploaded * 1000 / size;
    let rest = uploaded * 1000 % size;
    if 2 * rest > size || (2 * rest == size && whole % 2 == 1) {
        whole + 1
    } else {
        whole
    }
}

/// The ratio of a session as a listing writes it.
pub open spec fn ratio_text(uploaded: u64, torrent_size: u64) -> Seq<char> {
    if torrent_size > 0 {
        let t = thousandths(uploaded as nat, torrent_size as nat);
        decimal_text(t / 1000).push('.') + padded_decimal(t % 1000, 3)
    } else if uploaded > 0 {
        "inf"@
    } else {
        "0.000"@
    }
}

impl Session {
    /// A session for a torrent, created at `now`, with nothing done yet
    /// and the default rates and port.
    pub fn new(
        info_hash: &str,
        torrent_name: &str,
        torrent_path: &str,
        torrent_size: u64,
        client: &str,
        client_version: Option<String>,
        now: u64,
    ) -> (r: Session)
        ensures
            r.version == SESSION_VERSION,
            r.info_hash@ == info_hash@,
            r.torrent_name@ == torrent_name@,
            r.torrent_path@ == torrent_path@,
            r.torrent_size == torrent_size,
            r.client@ == client@,
            r.client_version == client_version,
            r.uploaded == 0,
            r.downloaded == 0,
            r.upload_rate == 50_000_000,
            r.download_rate == 100_000_000,
            r.port == 6881,
            r.completion_percent == 0,
            r.total_seed_time_secs == 0,
            r.created_at == now,
            r.updated_at == now,
            r.stop_at_ratio is None,
            r.stop_at_uploaded_gb is None,
    {
        Session {
            version: SESSION_VERSION,
            info_hash: String::from_str(info_hash),
            torrent_name: String::from_str(torrent_name),
            torrent_path: String::from_str(torrent_path),
            torrent_size,
            client: String::from_str(client),
            client_version,
            uploaded: 0,
            downloaded: 0,
            upload_rate: 50_000_000,
            download_rate: 100_000_000,
            port: 6881,
            completion_percent: 0,
            total_seed_time_secs: 0,
            created_at: now,
            updated_at: now,
            stop_at_ratio: None,
            stop_at_uploaded_gb: None,
        }
    }

    /// Takes in the figures of a run that ended at `now` after
    /// `elapsed_secs` seconds: the counters are set, the time is added.
    pub fn update(&mut self, uploaded: u64, downloaded: u64, elapsed_secs: u64, now: u64)
        ensures
            final(self).uploaded == uploaded,
            final(self).downloaded == downloaded,
            final(self).total_seed_time_secs == if old(self).total_seed_time_secs + elapsed_secs
                > u64::MAX {
                u64::MAX
            } else {
                (old(self).total_seed_time_secs + elapsed_secs) as u64
            },
            final(self).updated_at == now,
            final(self).version == old(self).version,
            final(self).info_hash == old(self).info_hash,
            final(self).torrent_name == old(self).torrent_name,
            final(self).torrent_path == old(self).torrent_path,
            final(self).torrent_size == old(self).torrent_size,
            final(self).client == old(self).client,
            final(self).client_version == old(self).client_version,
            final(self).upload_rate == old(self).upload_rate,
            final(self).download_rate == old(self).download_rate,
            final(self).port == old(self).port,
            final(self).completion_percent == old(self).completion_percent,
            final(self).created_at == old(self).created_at,
            final(self).stop_at_ratio == old(self).stop_at_ratio,
            final(self).stop_at_uploaded_gb == old(self).stop_at_uploaded_gb,
    {
        self.uploaded = uploaded;
        self.downloaded = downloaded;
        self.total_seed_time_secs = self.total_seed_time_secs.saturating_add(elapsed_secs);
        self.updated_at = now;
    }

    /// The ratio in millionths, or none where it is without bound.
    pub fn ratio(&self) -> (r: Option<u64>)
        ensures
            r == session_ratio(self.uploaded, self.torrent_size),
    {
        if self.torrent_size > 0 {
            let exact: u128 = (self.uploaded as u128) * 1_000_000 / (self.torrent_size as u128);
            if exact > u64::MAX as u128 {
                Some(u64::MAX)
            } else {
                Some(exact as u64)
            }
        } else if self.uploaded > 0 {
            None
        } else {
            Some(0)
        }
    }

    /// The session as a listing shows it.
    pub fn summary(&self) -> (r: SessionSummary)
        ensures
            r.info_hash@ == self.info_hash@,
            r.torrent_name@ == self.torrent_name@,
            r.uploaded == self.uploaded,
            r.downloaded == self.downloaded,
            r.ratio == session_ratio(self.uploaded, self.torrent_size),
            r.ratio_display@ == ratio_text(self.uploaded, self.torrent_size),
            r.total_seed_time_secs == self.total_seed_time_secs,
            r.updated_at == self.updated_at,
    {
        let ratio_display = if self.torrent_size > 0 {
            let scaled: u128 = (self.uploaded as u128) * 1000;
            let size: u128 = self.torrent_size as u128;
            let whole: u128 = scaled / size;
            let rest: u128 = scaled % size;
            assert(whole <= scaled) by (nonlinear_arith)
                requires
                    whole == scaled / size,
                    size >= 1,
                    scaled >= 0,
            ;
            let t: u128 = if 2 * rest > size || (2 * rest == size && whole % 2 == 1) {
                whole + 1
            } else {
                whole
            };
            let mut out = String::new();
            append_decimal(&mut out, (t / 1000) as u64);
            out.append(".");
            append_padded_decimal(&mut out, (t % 1000) as u64, 3);
            proof {
                reveal_strlit(".");
                assert(out@ =~= ratio_text(self.uploaded, self.torrent_size));
            }
            out
        } else if self.uploaded > 0 {
            String::from_str("inf")
        } else {
            String::from_str("0.000")
        };
        SessionSummary {
            info_hash: self.info_hash.clone(),
            torrent_name: self.torrent_name.clone(),
            uploaded: self.uploaded,
            downloaded: self.downloaded,
            ratio: self.ratio(),
            ratio_display,
            total_seed_time_secs: self.total_seed_time_secs,
            updated_at: self.updated_at,
        }
    }
}

} // verus!
