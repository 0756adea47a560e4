# email-sec

Assesses how well a mail domain is protected against spoofing. It reads the SPF, DMARC and DKIM
records of a domain, scores the risk, suggests what to publish, predicts what becomes of spoofed
mail, and can try that prediction against an SMTP server. It also analyses the headers of a mail.

The library under `src/` is verified with Verus:

| Module         | Holds                                                                     |
|----------------|---------------------------------------------------------------------------|
| `models`       | the shared types and their views                                          |
| `text`         | searching, trimming, splitting and joining text; decimal numbers          |
| `parser`       | SPF, DMARC and DKIM records                                               |
| `tags`         | what does and does not matter in a list of tags                           |
| `analyzer`     | the risk score and the remediations                                       |
| `remedies`     | what the suggested records do once they are published                     |
| `dns`          | what is asked of DNS and how the answers are read                         |
| `spoof`        | the prediction, SMTP replies, and the comparison of prediction and outcome |
| `smtp`         | the SMTP handshake as a state machine                                     |
| `email_parser` | the analysis of mail headers                                              |
| `page`         | styled text for the terminal                                              |
| `report`       | the report on a domain                                                    |
| `scan`         | how an assessment is put together                                         |
| `clock`        | dates                                                                     |

Each executable function states its result as a spec function of its arguments. What holds across
functions stands in the proof functions whose names begin with `law_`.

The program under `app/` does the rest: arguments, DNS queries, the SMTP connection, the clock,
files and colours.
