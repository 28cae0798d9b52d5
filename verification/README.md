# sipcord_bridge

The verified core of a bridge between SIP phone calls and Discord: what is
decided and computed, without the I/O around it. The code is Rust with
contracts that Verus proves.

- `src/audio`: WAV and FLAC parsing to mono 16-bit samples, and the sample
  arithmetic of the mixer and of voice activity detection.
- `src/fax`: the state machine of an incoming fax, its timeouts, and what is
  posted to Discord from the first notice to the page gallery.
- `src/transport/sip`: the errors of the SIP layer and the order of the pjsua
  calls that build and send a response.
- `src/services`, `src/text.rs`, `src/error.rs`: shared records, numbers as
  text, and the umbrella error.

FLAC decoding is done by `claxon`, image encoding by `image`, and the form of
bot tokens is checked by `serenity`. What is believed of these three calls
stands in the contracts of `decode_flac`, `encode_gray` and `validate_token`.

Properties that span several functions are public proof functions whose names
begin with `law_`.

`app` is the running side: Discord requests, files, clocks and the C libraries,
each decision taken by the library.
