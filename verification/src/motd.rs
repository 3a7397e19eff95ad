//! The message-of-the-day lines: optional server information followed by the
//! configured custom entries.
use vstd::prelude::*;
use vstd::string::StringExecFns;
use crate::admin::CMotd;
use crate::text::{dec_of, dec_string, dec_string_pad2, pad2_of};

verus! {

/// One message-of-the-day line, as the client renders it.
#[derive(Debug)]
pub struct Motd {
    pub text: String,
    pub color: Option<String>,
    pub click_event: Option<ClickEvent>,
    pub underlined: Option<bool>,
}

/// A click action attached to a message-of-the-day line.
#[derive(Debug)]
pub struct ClickEvent {
    pub action: String,
    pub value: String,
}

impl Clone for ClickEvent {
    fn clone(&self) -> (r: Self)
        ensures
            r == *self,
    {
        ClickEvent { action: self.action.clone(), value: self.value.clone() }
    }
}

/// The release and prerelease version strings the info route reports.
#[derive(Debug, Clone)]
pub struct FiguraVersions {
    pub release: String,
    pub prerelease: String,
}

/// Mathematical image of a message-of-the-day line.
pub struct MotdV {
    pub text: Seq<char>,
    pub color: Option<Seq<char>>,
    pub click_event: Option<(Seq<char>, Seq<char>)>,
    pub underlined: Option<bool>,
}

impl View for Motd {
    type V = MotdV;

    open spec fn view(&self) -> MotdV {
        MotdV {
            text: self.text@,
            color: match self.color {
                Some(c) => Some(c@),
                None => None,
            },
            click_event: match self.click_event {
                Some(e) => Some((e.action@, e.value@)),
                None => None,
            },
            underlined: self.underlined,
        }
    }
}

impl DeepView for Motd {
    type V = MotdV;

    open spec fn deep_view(&self) -> MotdV {
        self@
    }
}

impl Clone for Motd {
    fn clone(&self) -> (r: Self)
        ensures
            r == *self,
    {
        Motd {
            text: self.text.clone(),
            color: match &self.color {
                Some(c) => Some(c.clone()),
                None => None,
            },
            click_event: match &self.click_event {
                Some(e) => Some(e.clone()),
                None => None,
            },
            underlined: self.underlined,
        }
    }
}

/// The uptime line: the configured prefix, then hours, minutes and seconds as
/// a zero-padded clock, then a line break.
pub open spec fn uptime_line(prefix: Seq<char>, secs: nat) -> Seq<char> {
    prefix + pad2_of(secs / 3600) + ":"@ + pad2_of((secs / 60) % 60) + ":"@ + pad2_of(secs % 60)
        + "\n"@
}

/// The client-count line: the configured prefix, the count, a line break.
pub open spec fn clients_line(prefix: Seq<char>, clients: nat) -> Seq<char> {
    prefix + dec_of(clients) + "\n"@
}

/// Builds the message of the day: with server information disabled, exactly
/// the custom entries; otherwise the uptime line, the client-count line, an
/// optional separator, and then the custom entries.
pub fn build_motd(settings: &CMotd, uptime_secs: u64, auth_clients: u64, custom: Vec<Motd>) -> (r:
    Vec<Motd>)
    ensures
        !settings.display_server_info ==> r.deep_view() == custom.deep_view(),
        settings.display_server_info ==> {
            let lead: int = if settings.draw_indent {
                3
            } else {
                2
            };
            &&& r.deep_view().len() == custom.deep_view().len() + lead
            &&& r.deep_view()[0] == (MotdV {
                text: uptime_line(settings.text_uptime@, uptime_secs as nat),
                color: None,
                click_event: None,
                underlined: None,
            })
            &&& r.deep_view()[1] == (MotdV {
                text: clients_line(settings.text_authclients@, auth_clients as nat),
                color: None,
                click_event: None,
                underlined: None,
            })
            &&& settings.draw_indent ==> r.deep_view()[2] == (MotdV {
                text: "----\n\n"@,
                color: Some("gold"@),
                click_event: None,
                underlined: None,
            })
            &&& forall|i: int|
                0 <= i < custom.deep_view().len() ==> r.deep_view()[lead + i]
                    == custom.deep_view()[i]
        },
{
    if !settings.display_server_info {
        return custom;
    }
    let mut out: Vec<Motd> = Vec::new();
    let mut uptime_text = settings.text_uptime.clone();
    let hours = dec_string_pad2(uptime_secs / 3600);
    uptime_text.append(hours.as_str());
    uptime_text.append(":");
    let minutes = dec_string_pad2((uptime_secs / 60) % 60);
    uptime_text.append(minutes.as_str());
    uptime_text.append(":");
    let seconds = dec_string_pad2(uptime_secs % 60);
    uptime_text.append(seconds.as_str());
    uptime_text.append("\n");
    out.push(Motd { text: uptime_text, color: None, click_event: None, underlined: None });
    let mut clients_text = settings.text_authclients.clone();
    let count = dec_string(auth_clients);
    clients_text.append(count.as_str());
    clients_text.append("\n");
    out.push(Motd { text: clients_text, color: None, click_event: None, underlined: None });
    if settings.draw_indent {
        out.push(
            Motd {
                text: "----\n\n".to_owned(),
                color: Some("gold".to_owned()),
                click_event: None,
                underlined: None,
            },
        );
    }
    let ghost prefix = out.deep_view();
    let ghost lead = prefix.len() as int;
    let mut i: usize = 0;
    while i < custom.len()
        invariant
            i <= custom@.len(),
            lead == prefix.len(),
            out.deep_view().len() == lead + i,
            forall|k: int| 0 <= k < lead ==> #[trigger] out.deep_view()[k] == prefix[k],
            forall|k: int|
                0 <= k < i ==> #[trigger] out.deep_view()[lead + k] == custom.deep_view()[k],
        decreases custom@.len() - i,
    {
        let ghost snap = out@;
        let ghost dsnap = out.deep_view();
        let entry = custom[i].clone();
        out.push(entry);
        i = i + 1;
        proof {
            assert(out@ == snap.push(entry));
            assert forall|k: int| 0 <= k < out@.len() implies #[trigger] out.deep_view()[k] == out@[
                k].deep_view() by {}
            assert forall|k: int| 0 <= k < snap.len() implies #[trigger] dsnap[k] == snap[
                k].deep_view() by {}
            assert forall|k: int| 0 <= k < lead implies #[trigger] out.deep_view()[k] == prefix[
                k] by {
                assert(out@[k] == snap[k]);
                assert(dsnap[k] == prefix[k]);
            }
            assert forall|k: int| 0 <= k < i implies #[trigger] out.deep_view()[lead + k]
                == custom.deep_view()[k] by {
                if k < i - 1 {
                    assert(out@[lead + k] == snap[lead + k]);
                    assert(dsnap[lead + k] == custom.deep_view()[k]);
                } else {
                    assert(out@[lead + k] == entry);
                    assert(entry.deep_view() == custom@[k].deep_view());
                }
            }
        }
    }
    out
}

} // verus!
